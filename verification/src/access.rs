//! The proxy server's guard: which requests reach the note store when the
//! server only exposes one directory subtree, and how the cached subtree
//! follows the changes that went through.
use vstd::prelude::*;
use crate::data::{copy_string, Directory, Note};
use crate::ids::{IdSet, prefix_ids};
use crate::proxy::{ProxyRequest, ProxyResponse, ResultPayload};

verus! {

/// The message of a refusal that names a directory outside the subtree.
pub open spec fn directory_outside_message(id: Seq<char>) -> Seq<char> {
    "proxy: directory "@ + id + " is outside the allowed subtree"@
}

/// The message of a refusal that names a note outside the subtree.
pub open spec fn note_outside_message(id: Seq<char>) -> Seq<char> {
    "proxy: note "@ + id + " is outside the allowed subtree"@
}

/// The message refusing to remove the allowed root.
pub open spec fn modify_root_message() -> Seq<char> {
    "proxy: modifying the allowed root directory is not permitted"@
}

/// The message refusing to move the allowed root.
pub open spec fn move_root_message() -> Seq<char> {
    "proxy: moving the allowed root directory is not permitted"@
}

/// The message refusing to rename the allowed root.
pub open spec fn rename_root_message() -> Seq<char> {
    "proxy: renaming the allowed root directory is not permitted"@
}

/// The cached subtree as mathematical values.
pub struct AccessView {
    pub root: Seq<char>,
    pub directories: Set<Seq<char>>,
    pub notes: Set<Seq<char>>,
}

/// The guard's decision as mathematical values.
pub enum Verdict {
    /// Forward the request; `collect` names a directory whose subtree must
    /// be listed first, for a removal.
    Allow { collect: Option<Seq<char>> },
    /// Answer with the allowed root in place of the store's root.
    ReturnRoot { root: Seq<char> },
    /// Refuse with this message.
    Deny { message: Seq<char> },
}

pub open spec fn allow_plain() -> Verdict {
    Verdict::Allow { collect: None }
}

/// The decision for a request that names directory `id`, where `ok` is the
/// decision when `id` is inside the subtree.
pub open spec fn guard_directory_verdict(a: AccessView, id: Seq<char>, ok: Verdict) -> Verdict {
    if a.directories.contains(id) {
        ok
    } else {
        Verdict::Deny { message: directory_outside_message(id) }
    }
}

/// The decision for a request that names note `id`.
pub open spec fn guard_note_verdict(a: AccessView, id: Seq<char>, ok: Verdict) -> Verdict {
    if a.notes.contains(id) {
        ok
    } else {
        Verdict::Deny { message: note_outside_message(id) }
    }
}

/// The guard's decision on `request`.
pub open spec fn verdict(a: AccessView, request: ProxyRequest) -> Verdict {
    match request {
        ProxyRequest::RootId => Verdict::ReturnRoot { root: a.root },
        ProxyRequest::FetchDirectory { directory_id } => guard_directory_verdict(a, directory_id@, allow_plain()),
        ProxyRequest::FetchDirectories { parent_id } => guard_directory_verdict(a, parent_id@, allow_plain()),
        ProxyRequest::FetchNotes { directory_id } => guard_directory_verdict(a, directory_id@, allow_plain()),
        ProxyRequest::FetchNoteContent { note_id } => guard_note_verdict(a, note_id@, allow_plain()),
        ProxyRequest::AddDirectory { parent_id, .. } => guard_directory_verdict(a, parent_id@, allow_plain()),
        ProxyRequest::RemoveDirectory { directory_id } => guard_directory_verdict(
            a,
            directory_id@,
            if directory_id@ == a.root {
                Verdict::Deny { message: modify_root_message() }
            } else {
                Verdict::Allow { collect: Some(directory_id@) }
            },
        ),
        ProxyRequest::MoveDirectory { directory_id, parent_id } => {
            if directory_id@ == a.root {
                Verdict::Deny { message: move_root_message() }
            } else if !a.directories.contains(directory_id@) {
                Verdict::Deny { message: directory_outside_message(directory_id@) }
            } else if !a.directories.contains(parent_id@) {
                Verdict::Deny { message: directory_outside_message(parent_id@) }
            } else {
                allow_plain()
            }
        },
        ProxyRequest::RenameDirectory { directory_id, .. } => {
            if directory_id@ == a.root {
                Verdict::Deny { message: rename_root_message() }
            } else {
                guard_directory_verdict(a, directory_id@, allow_plain())
            }
        },
        ProxyRequest::AddNote { directory_id, .. } => guard_directory_verdict(a, directory_id@, allow_plain()),
        ProxyRequest::RemoveNote { note_id } => guard_note_verdict(a, note_id@, allow_plain()),
        ProxyRequest::RenameNote { note_id, .. } => guard_note_verdict(a, note_id@, allow_plain()),
        ProxyRequest::UpdateNoteContent { note_id, .. } => guard_note_verdict(a, note_id@, allow_plain()),
        ProxyRequest::MoveNote { note_id, directory_id } => {
            if !a.notes.contains(note_id@) {
                Verdict::Deny { message: note_outside_message(note_id@) }
            } else if !a.directories.contains(directory_id@) {
                Verdict::Deny { message: directory_outside_message(directory_id@) }
            } else {
                allow_plain()
            }
        },
        ProxyRequest::Log { .. } => allow_plain(),
        ProxyRequest::Sync => allow_plain(),
    }
}

/// Work that must be done before an allowed request is forwarded.
#[derive(Debug)]
pub enum PendingMutation {
    /// List the subtree of this directory, which is about to be removed.
    CollectRemoval { directory_id: String },
}

/// What the guard decided.
#[derive(Debug)]
pub enum GuardEvaluation {
    Allow { pending: Option<PendingMutation> },
    ReturnRoot { root: String },
    Deny { message: String },
}

impl View for GuardEvaluation {
    type V = Verdict;

    open spec fn view(&self) -> Verdict {
        match self {
            GuardEvaluation::Allow { pending } => Verdict::Allow {
                collect: match pending {
                    Some(PendingMutation::CollectRemoval { directory_id }) => Some(directory_id@),
                    None => None,
                },
            },
            GuardEvaluation::ReturnRoot { root } => Verdict::ReturnRoot { root: root@ },
            GuardEvaluation::Deny { message } => Verdict::Deny { message: message@ },
        }
    }
}

impl GuardEvaluation {
    /// Forward the request with nothing to do first.
    pub fn allow() -> (g: GuardEvaluation)
        ensures
            g@ == allow_plain(),
    {
        GuardEvaluation::Allow { pending: None }
    }

    /// Refuse, naming a directory outside the subtree.
    pub fn deny_directory(id: &String) -> (g: GuardEvaluation)
        ensures
            g@ == (Verdict::Deny { message: directory_outside_message(id@) }),
    {
        let message = String::from_str("proxy: directory ").concat(id.as_str()).concat(
            " is outside the allowed subtree",
        );
        GuardEvaluation::Deny { message }
    }

    /// Refuse, naming a note outside the subtree.
    pub fn deny_note(id: &String) -> (g: GuardEvaluation)
        ensures
            g@ == (Verdict::Deny { message: note_outside_message(id@) }),
    {
        let message = String::from_str("proxy: note ").concat(id.as_str()).concat(
            " is outside the allowed subtree",
        );
        GuardEvaluation::Deny { message }
    }
}

/// The directories and notes of the subtree that the proxy exposes.
#[derive(Debug)]
pub struct ProxyAccess {
    allowed_root: String,
    directories: IdSet,
    notes: IdSet,
}

impl View for ProxyAccess {
    type V = AccessView;

    closed spec fn view(&self) -> AccessView {
        AccessView { root: self.allowed_root@, directories: self.directories@, notes: self.notes@ }
    }
}

impl ProxyAccess {
    /// A guard over the subtree rooted at `allowed_root`, whose directories
    /// and notes are the given sets.
    pub fn new(allowed_root: String, directories: IdSet, notes: IdSet) -> (a: ProxyAccess)
        ensures
            a@.root == allowed_root@,
            a@.directories == directories@,
            a@.notes == notes@,
    {
        ProxyAccess { allowed_root, directories, notes }
    }

    /// The root of the exposed subtree.
    pub fn allowed_root(&self) -> (r: &String)
        ensures
            r@ == self@.root,
    {
        &self.allowed_root
    }

    /// Whether the directory is inside the exposed subtree.
    pub fn has_directory(&self, id: &String) -> (r: bool)
        ensures
            r == self@.directories.contains(id@),
    {
        self.directories.contains(id)
    }

    /// Whether the note is inside the exposed subtree.
    pub fn has_note(&self, id: &String) -> (r: bool)
        ensures
            r == self@.notes.contains(id@),
    {
        self.notes.contains(id)
    }

    /// Adds a directory to the subtree.
    pub fn insert_directory(&mut self, id: String)
        ensures
            final(self)@ == (AccessView { directories: old(self)@.directories.insert(id@), ..old(self)@ }),
    {
        self.directories.insert(id);
    }

    /// Adds a note to the subtree.
    pub fn insert_note(&mut self, id: String)
        ensures
            final(self)@ == (AccessView { notes: old(self)@.notes.insert(id@), ..old(self)@ }),
    {
        self.notes.insert(id);
    }

    /// Drops a directory from the subtree.
    pub fn remove_directory(&mut self, id: &String)
        ensures
            final(self)@ == (AccessView { directories: old(self)@.directories.remove(id@), ..old(self)@ }),
    {
        self.directories.remove(id);
    }

    /// Drops a note from the subtree.
    pub fn remove_note(&mut self, id: &String)
        ensures
            final(self)@ == (AccessView { notes: old(self)@.notes.remove(id@), ..old(self)@ }),
    {
        self.notes.remove(id);
    }

    fn guard_directory(&self, directory_id: &String, ok: GuardEvaluation) -> (g: GuardEvaluation)
        ensures
            g@ == guard_directory_verdict(self@, directory_id@, ok@),
    {
        if self.directories.contains(directory_id) {
            ok
        } else {
            GuardEvaluation::deny_directory(directory_id)
        }
    }

    fn guard_note(&self, note_id: &String, ok: GuardEvaluation) -> (g: GuardEvaluation)
        ensures
            g@ == guard_note_verdict(self@, note_id@, ok@),
    {
        if self.notes.contains(note_id) {
            ok
        } else {
            GuardEvaluation::deny_note(note_id)
        }
    }

    /// Decides whether `request` may reach the store.
    pub fn evaluate(&self, request: &ProxyRequest) -> (g: GuardEvaluation)
        ensures
            g@ == verdict(self@, *request),
    {
        match request {
            ProxyRequest::RootId => GuardEvaluation::ReturnRoot { root: copy_string(&self.allowed_root) },
            ProxyRequest::FetchDirectory { directory_id } => self.guard_directory(directory_id, GuardEvaluation::allow()),
            ProxyRequest::FetchDirectories { parent_id } => self.guard_directory(parent_id, GuardEvaluation::allow()),
            ProxyRequest::FetchNotes { directory_id } => self.guard_directory(directory_id, GuardEvaluation::allow()),
            ProxyRequest::FetchNoteContent { note_id } => self.guard_note(note_id, GuardEvaluation::allow()),
            ProxyRequest::AddDirectory { parent_id, .. } => self.guard_directory(parent_id, GuardEvaluation::allow()),
            ProxyRequest::RemoveDirectory { directory_id } => {
                let ok = if directory_id.eq(&self.allowed_root) {
                    GuardEvaluation::Deny {
                        message: String::from_str("proxy: modifying the allowed root directory is not permitted"),
                    }
                } else {
                    GuardEvaluation::Allow {
                        pending: Some(PendingMutation::CollectRemoval { directory_id: copy_string(directory_id) }),
                    }
                };
                self.guard_directory(directory_id, ok)
            },
            ProxyRequest::MoveDirectory { directory_id, parent_id } => {
                if directory_id.eq(&self.allowed_root) {
                    return GuardEvaluation::Deny {
                        message: String::from_str("proxy: moving the allowed root directory is not permitted"),
                    };
                }
                let moved = self.directories.contains(directory_id);
                let target = self.directories.contains(parent_id);
                if moved && target {
                    GuardEvaluation::allow()
                } else if !moved {
                    GuardEvaluation::deny_directory(directory_id)
                } else {
                    GuardEvaluation::deny_directory(parent_id)
                }
            },
            ProxyRequest::RenameDirectory { directory_id, .. } => {
                if directory_id.eq(&self.allowed_root) {
                    GuardEvaluation::Deny {
                        message: String::from_str("proxy: renaming the allowed root directory is not permitted"),
                    }
                } else {
                    self.guard_directory(directory_id, GuardEvaluation::allow())
                }
            },
            ProxyRequest::AddNote { directory_id, .. } => self.guard_directory(directory_id, GuardEvaluation::allow()),
            ProxyRequest::RemoveNote { note_id } => self.guard_note(note_id, GuardEvaluation::allow()),
            ProxyRequest::RenameNote { note_id, .. } => self.guard_note(note_id, GuardEvaluation::allow()),
            ProxyRequest::UpdateNoteContent { note_id, .. } => self.guard_note(note_id, GuardEvaluation::allow()),
            ProxyRequest::MoveNote { note_id, directory_id } => {
                let note_allowed = self.notes.contains(note_id);
                let dir_allowed = self.directories.contains(directory_id);
                if note_allowed && dir_allowed {
                    GuardEvaluation::allow()
                } else if !note_allowed {
                    GuardEvaluation::deny_note(note_id)
                } else {
                    GuardEvaluation::deny_directory(directory_id)
                }
            },
            ProxyRequest::Log { .. } => GuardEvaluation::allow(),
            ProxyRequest::Sync => GuardEvaluation::allow(),
        }
    }
}

/// The identifiers held by a sequence of strings.
pub open spec fn ids_of(s: Seq<String>) -> Set<Seq<char>> {
    prefix_ids(s, s.len() as int)
}

/// The directories and notes that a directory removal takes away.
#[derive(Debug)]
pub struct RemovalPlan {
    pub directories: Vec<String>,
    pub notes: Vec<String>,
}

/// How the cached subtree must follow a request once the store answered.
#[derive(Debug)]
pub enum PostPlan {
    Nothing,
    AddDirectory,
    AddNote,
    RemoveNote { note_id: String },
    RemoveDirectory(RemovalPlan),
}

impl PostPlan {
    /// The follow-up that `request` calls for, before any removal plan is known.
    pub fn from_request(request: &ProxyRequest) -> (p: PostPlan)
        ensures
            p == post_plan_for(*request),
    {
        match request {
            ProxyRequest::AddDirectory { .. } => PostPlan::AddDirectory,
            ProxyRequest::AddNote { .. } => PostPlan::AddNote,
            ProxyRequest::RemoveNote { note_id } => PostPlan::RemoveNote { note_id: note_id.clone() },
            _ => PostPlan::Nothing,
        }
    }
}

/// The follow-up plan for a request.
pub open spec fn post_plan_for(request: ProxyRequest) -> PostPlan {
    match request {
        ProxyRequest::AddDirectory { .. } => PostPlan::AddDirectory,
        ProxyRequest::AddNote { .. } => PostPlan::AddNote,
        ProxyRequest::RemoveNote { note_id } => PostPlan::RemoveNote { note_id },
        _ => PostPlan::Nothing,
    }
}

/// The cached subtree after `plan` met `response`.
pub open spec fn after_post_plan(a: AccessView, plan: PostPlan, response: ProxyResponse) -> AccessView {
    match plan {
        PostPlan::Nothing => a,
        PostPlan::AddDirectory => match response {
            ProxyResponse::Success(ResultPayload::Directory(d)) => AccessView { directories: a.directories.insert(d.id@), ..a },
            _ => a,
        },
        PostPlan::AddNote => match response {
            ProxyResponse::Success(ResultPayload::Note(n)) => AccessView { notes: a.notes.insert(n.id@), ..a },
            _ => a,
        },
        PostPlan::RemoveNote { note_id } => match response {
            ProxyResponse::Success(ResultPayload::Unit) => AccessView { notes: a.notes.remove(note_id@), ..a },
            _ => a,
        },
        PostPlan::RemoveDirectory(plan) => match response {
            ProxyResponse::Success(ResultPayload::Unit) => AccessView {
                directories: a.directories.difference(ids_of(plan.directories@)),
                notes: a.notes.difference(ids_of(plan.notes@)),
                ..a
            },
            _ => a,
        },
    }
}

/// Brings the cached subtree up to date with a request that went through.
pub fn apply_post_plan(access: &mut ProxyAccess, plan: PostPlan, response: &ProxyResponse)
    ensures
        final(access)@ == after_post_plan(old(access)@, plan, *response),
{
    let ghost plan_copy = plan;
    match plan {
        PostPlan::Nothing => {},
        PostPlan::AddDirectory => {
            if let ProxyResponse::Success(ResultPayload::Directory(directory)) = response {
                access.insert_directory(copy_string(&directory.id));
            }
        },
        PostPlan::AddNote => {
            if let ProxyResponse::Success(ResultPayload::Note(note)) = response {
                access.insert_note(copy_string(&note.id));
            }
        },
        PostPlan::RemoveNote { note_id } => {
            if let ProxyResponse::Success(ResultPayload::Unit) = response {
                access.remove_note(&note_id);
            }
        },
        PostPlan::RemoveDirectory(removal) => {
            if let ProxyResponse::Success(ResultPayload::Unit) = response {
                let ghost start = access@;
                let n = removal.directories.len();
                assert(start.directories.difference(prefix_ids(removal.directories@, 0)) =~= start.directories);
                for i in 0..n
                    invariant
                        n == removal.directories@.len(),
                        access@ == (AccessView {
                            directories: start.directories.difference(prefix_ids(removal.directories@, i as int)),
                            ..start
                        }),
                {
                    proof {
                        crate::ids::lemma_prefix_ids_step(removal.directories@, i as int);
                    }
                    access.remove_directory(&removal.directories[i]);
                    assert(access@.directories =~= start.directories.difference(prefix_ids(removal.directories@, i + 1)));
                }
                let ghost mid = access@;
                let m = removal.notes.len();
                assert(mid.notes.difference(prefix_ids(removal.notes@, 0)) =~= mid.notes);
                for i in 0..m
                    invariant
                        m == removal.notes@.len(),
                        access@ == (AccessView {
                            notes: mid.notes.difference(prefix_ids(removal.notes@, i as int)),
                            ..mid
                        }),
                {
                    proof {
                        crate::ids::lemma_prefix_ids_step(removal.notes@, i as int);
                    }
                    access.remove_note(&removal.notes[i]);
                    assert(access@.notes =~= mid.notes.difference(prefix_ids(removal.notes@, i + 1)));
                }
                assert(access@ == after_post_plan(start, plan_copy, *response));
            }
        },
    }
}

/// The directories a request names.
pub open spec fn named_directories(request: ProxyRequest) -> Set<Seq<char>> {
    match request {
        ProxyRequest::FetchDirectory { directory_id } => set![directory_id@],
        ProxyRequest::FetchDirectories { parent_id } => set![parent_id@],
        ProxyRequest::FetchNotes { directory_id } => set![directory_id@],
        ProxyRequest::AddDirectory { parent_id, .. } => set![parent_id@],
        ProxyRequest::RemoveDirectory { directory_id } => set![directory_id@],
        ProxyRequest::MoveDirectory { directory_id, parent_id } => set![directory_id@, parent_id@],
        ProxyRequest::RenameDirectory { directory_id, .. } => set![directory_id@],
        ProxyRequest::AddNote { directory_id, .. } => set![directory_id@],
        ProxyRequest::MoveNote { directory_id, .. } => set![directory_id@],
        _ => Set::empty(),
    }
}

/// The notes a request names.
pub open spec fn named_notes(request: ProxyRequest) -> Set<Seq<char>> {
    match request {
        ProxyRequest::FetchNoteContent { note_id } => set![note_id@],
        ProxyRequest::RemoveNote { note_id } => set![note_id@],
        ProxyRequest::RenameNote { note_id, .. } => set![note_id@],
        ProxyRequest::UpdateNoteContent { note_id, .. } => set![note_id@],
        ProxyRequest::MoveNote { note_id, .. } => set![note_id@],
        _ => Set::empty(),
    }
}

/// A request that the guard lets through names only directories and notes
/// of the exposed subtree.
pub proof fn law_allowed_requests_stay_inside(a: AccessView, request: ProxyRequest)
    requires
        verdict(a, request) is Allow,
    ensures
        named_directories(request).subset_of(a.directories),
        named_notes(request).subset_of(a.notes),
{
}

/// The guard lets no request remove, move or rename the allowed root.
pub proof fn law_root_is_protected(a: AccessView, request: ProxyRequest)
    requires
        match request {
            ProxyRequest::RemoveDirectory { directory_id } => directory_id@ == a.root,
            ProxyRequest::MoveDirectory { directory_id, .. } => directory_id@ == a.root,
            ProxyRequest::RenameDirectory { directory_id, .. } => directory_id@ == a.root,
            _ => false,
        },
    ensures
        verdict(a, request) is Deny,
{
}

/// A request for the root id is answered with the allowed root, never
/// forwarded.
pub proof fn law_root_id_is_the_allowed_root(a: AccessView)
    ensures
        verdict(a, ProxyRequest::RootId) == (Verdict::ReturnRoot { root: a.root }),
{
}

/// A request the store refused leaves the cached subtree as it was.
pub proof fn law_failures_change_nothing(a: AccessView, plan: PostPlan, message: String)
    ensures
        after_post_plan(a, plan, ProxyResponse::Failure(message)) == a,
{
}

/// The allowed root stays the same whatever a follow-up does.
pub proof fn law_root_is_stable(a: AccessView, plan: PostPlan, response: ProxyResponse)
    ensures
        after_post_plan(a, plan, response).root == a.root,
{
}

/// A directory created through the proxy can be reached through it at once.
pub proof fn law_created_directory_is_reachable(a: AccessView, request: ProxyRequest, d: Directory)
    requires
        request is AddDirectory,
    ensures
        ({
            let b = after_post_plan(a, post_plan_for(request), ProxyResponse::Success(ResultPayload::Directory(d)));
            verdict(b, ProxyRequest::FetchDirectory { directory_id: d.id }) == allow_plain()
        }),
{
}

/// A note created through the proxy can be read through it at once.
pub proof fn law_created_note_is_reachable(a: AccessView, request: ProxyRequest, n: Note)
    requires
        request is AddNote,
    ensures
        ({
            let b = after_post_plan(a, post_plan_for(request), ProxyResponse::Success(ResultPayload::Note(n)));
            verdict(b, ProxyRequest::FetchNoteContent { note_id: n.id }) == allow_plain()
        }),
{
}

/// Once a removal went through, the directories and notes it took away are
/// out of reach.
pub proof fn law_removed_items_are_out_of_reach(a: AccessView, plan: RemovalPlan, directory_id: String, note_id: String)
    requires
        ids_of(plan.directories@).contains(directory_id@),
        ids_of(plan.notes@).contains(note_id@),
    ensures
        ({
            let b = after_post_plan(a, PostPlan::RemoveDirectory(plan), ProxyResponse::Success(ResultPayload::Unit));
            &&& verdict(b, ProxyRequest::FetchDirectory { directory_id }) is Deny
            &&& verdict(b, ProxyRequest::FetchNoteContent { note_id }) is Deny
        }),
{
}

/// Once a note was removed through the proxy, it is out of reach.
pub proof fn law_removed_note_is_out_of_reach(a: AccessView, note_id: String, other: String)
    requires
        other@ == note_id@,
    ensures
        ({
            let b = after_post_plan(a, PostPlan::RemoveNote { note_id }, ProxyResponse::Success(ResultPayload::Unit));
            verdict(b, ProxyRequest::FetchNoteContent { note_id: other }) is Deny
        }),
{
}

/// Whether a request removes, moves or renames the allowed root.
pub open spec fn changes_root(a: AccessView, request: ProxyRequest) -> bool {
    match request {
        ProxyRequest::RemoveDirectory { directory_id } => directory_id@ == a.root,
        ProxyRequest::MoveDirectory { directory_id, .. } => directory_id@ == a.root,
        ProxyRequest::RenameDirectory { directory_id, .. } => directory_id@ == a.root,
        _ => false,
    }
}

/// Every store request that names only directories and notes of the
/// exposed subtree, and does not remove, move or rename the allowed root,
/// goes through to the store; only a directory removal asks for the
/// directory's subtree to be listed first.
pub proof fn law_inside_requests_are_allowed(a: AccessView, request: ProxyRequest)
    requires
        !(request is RootId),
        named_directories(request).subset_of(a.directories),
        named_notes(request).subset_of(a.notes),
        !changes_root(a, request),
    ensures
        verdict(a, request) == (Verdict::Allow {
            collect: match request {
                ProxyRequest::RemoveDirectory { directory_id } => Some(directory_id@),
                _ => None,
            },
        }),
{
    match request {
        ProxyRequest::MoveDirectory { directory_id, parent_id } => {
            assert(named_directories(request).contains(directory_id@));
            assert(named_directories(request).contains(parent_id@));
        },
        ProxyRequest::MoveNote { note_id, directory_id } => {
            assert(named_notes(request).contains(note_id@));
            assert(named_directories(request).contains(directory_id@));
        },
        _ => {
            assert(forall|x: Seq<char>| named_directories(request).contains(x) ==> a.directories.contains(x));
            assert(forall|x: Seq<char>| named_notes(request).contains(x) ==> a.notes.contains(x));
        },
    }
}

/// A request that names a directory or a note outside the exposed subtree
/// is refused.
pub proof fn law_outside_requests_are_refused(a: AccessView, request: ProxyRequest)
    requires
        !named_directories(request).subset_of(a.directories) || !named_notes(request).subset_of(a.notes),
    ensures
        verdict(a, request) is Deny,
{
    if !(verdict(a, request) is Deny) {
        if verdict(a, request) is Allow {
            law_allowed_requests_stay_inside(a, request);
        }
    }
}

} // verus!
