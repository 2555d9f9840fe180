//! The GUI's decisions apart from drawing: the open screen's form, which
//! workspace it opens and remembers, and the items its tree widget shows.
use vstd::prelude::*;
use crate::data::copy_string;
use crate::settings::{first_of_backend, upserted, GuiSettings, RecentBackend, RecentWorkspace};
use crate::text::{append, is_blank, strip_prefix, trimmed};
use crate::tree::{
    lemma_children_view, row_view, RowView, TreeNode, TreeRow, TreeRowKind, TreeView,
};
use crate::workspace::{dir_path_or_empty, WorkspaceBackendConfig, WorkspaceModel};

verus! {

/// The backend kinds the open screen offers.
#[derive(Clone, Copy, Debug, PartialEq, Eq, Structural)]
pub enum BackendKind {
    Memory,
    File,
    Redb,
    Git,
    Mongo,
    Proxy,
}

/// The remembered kind for a backend kind.
pub open spec fn recent_backend_of(kind: BackendKind) -> RecentBackend {
    match kind {
        BackendKind::Memory => RecentBackend::Memory,
        BackendKind::File => RecentBackend::File,
        BackendKind::Redb => RecentBackend::Redb,
        BackendKind::Git => RecentBackend::Git,
        BackendKind::Mongo => RecentBackend::Mongo,
        BackendKind::Proxy => RecentBackend::Proxy,
    }
}

/// The backend kind for a remembered kind.
pub open spec fn kind_of_recent(backend: RecentBackend) -> BackendKind {
    match backend {
        RecentBackend::Memory => BackendKind::Memory,
        RecentBackend::File => BackendKind::File,
        RecentBackend::Redb => BackendKind::Redb,
        RecentBackend::Git => BackendKind::Git,
        RecentBackend::Mongo => BackendKind::Mongo,
        RecentBackend::Proxy => BackendKind::Proxy,
    }
}

impl BackendKind {
    /// The label of the kind's button.
    pub fn label(self) -> (l: &'static str)
        ensures
            l@ == match self {
                BackendKind::Memory => "Memory"@,
                BackendKind::File => "File"@,
                BackendKind::Redb => "redb"@,
                BackendKind::Git => "Git"@,
                BackendKind::Mongo => "Mongo"@,
                BackendKind::Proxy => "Proxy"@,
            },
    {
        match self {
            BackendKind::Memory => "Memory",
            BackendKind::File => "File",
            BackendKind::Redb => "redb",
            BackendKind::Git => "Git",
            BackendKind::Mongo => "Mongo",
            BackendKind::Proxy => "Proxy",
        }
    }

    /// The key that identifies the kind's button.
    pub fn key(self) -> (k: &'static str)
        ensures
            k@ == match self {
                BackendKind::Memory => "memory"@,
                BackendKind::File => "file"@,
                BackendKind::Redb => "redb"@,
                BackendKind::Git => "git"@,
                BackendKind::Mongo => "mongo"@,
                BackendKind::Proxy => "proxy"@,
            },
    {
        match self {
            BackendKind::Memory => "memory",
            BackendKind::File => "file",
            BackendKind::Redb => "redb",
            BackendKind::Git => "git",
            BackendKind::Mongo => "mongo",
            BackendKind::Proxy => "proxy",
        }
    }

    /// The remembered kind.
    pub fn to_recent_backend(self) -> (b: RecentBackend)
        ensures
            b == recent_backend_of(self),
    {
        match self {
            BackendKind::Memory => RecentBackend::Memory,
            BackendKind::File => RecentBackend::File,
            BackendKind::Redb => RecentBackend::Redb,
            BackendKind::Git => RecentBackend::Git,
            BackendKind::Mongo => RecentBackend::Mongo,
            BackendKind::Proxy => RecentBackend::Proxy,
        }
    }

    /// The kind of a remembered kind.
    pub fn from_recent_backend(backend: RecentBackend) -> (k: BackendKind)
        ensures
            k == kind_of_recent(backend),
    {
        match backend {
            RecentBackend::Memory => BackendKind::Memory,
            RecentBackend::File => BackendKind::File,
            RecentBackend::Redb => BackendKind::Redb,
            RecentBackend::Git => BackendKind::Git,
            RecentBackend::Mongo => BackendKind::Mongo,
            RecentBackend::Proxy => BackendKind::Proxy,
        }
    }
}

/// Converting a kind to its remembered kind and back gives the same kind,
/// and the other way round.
pub proof fn law_backend_kind_round_trip(kind: BackendKind, backend: RecentBackend)
    ensures
        kind_of_recent(recent_backend_of(kind)) == kind,
        recent_backend_of(kind_of_recent(backend)) == backend,
{
}

/// A path the open screen asks the user to pick.
#[derive(Clone, Copy, Debug, PartialEq, Eq, Structural)]
pub enum PathTarget {
    FileDirectory,
    RedbFile,
    GitDirectory,
}

/// An icon of the open screen.
#[derive(Clone, Copy, Debug, PartialEq, Eq, Structural)]
pub enum Icon {
    FolderOpen,
    File,
    Github,
    Building2,
    Globe,
}

/// The icon of a recent workspace's row, by its backend kind.
pub fn recent_icon(recent: &RecentWorkspace) -> (i: Icon)
    ensures
        i == match recent {
            RecentWorkspace::File { .. } => Icon::FolderOpen,
            RecentWorkspace::Redb { .. } => Icon::File,
            RecentWorkspace::Git { .. } => Icon::Github,
            RecentWorkspace::Mongo { .. } => Icon::Building2,
            RecentWorkspace::Proxy { .. } => Icon::Globe,
        },
{
    match recent {
        RecentWorkspace::File { .. } => Icon::FolderOpen,
        RecentWorkspace::Redb { .. } => Icon::File,
        RecentWorkspace::Git { .. } => Icon::Github,
        RecentWorkspace::Mongo { .. } => Icon::Building2,
        RecentWorkspace::Proxy { .. } => Icon::Globe,
    }
}

/// How to ask the system for a path.
#[derive(Clone, Debug, PartialEq, Eq)]
pub struct PathPrompt {
    pub files: bool,
    pub directories: bool,
    pub multiple: bool,
    pub prompt: String,
}

/// The path the form holds for `target`.
pub open spec fn selected_path_of(f: OpenForm, target: PathTarget) -> Option<String> {
    match target {
        PathTarget::FileDirectory => f.file_path,
        PathTarget::RedbFile => f.redb_path,
        PathTarget::GitDirectory => f.git_path,
    }
}

/// Whether the target is a folder, not a file.
pub open spec fn is_folder_target(target: PathTarget) -> bool {
    target == PathTarget::FileDirectory || target == PathTarget::GitDirectory
}

impl PathTarget {
    /// The id of the button that picks the path.
    pub fn button_id(self) -> (l: &'static str)
        ensures
            l@ == match self {
                PathTarget::FileDirectory => "choose-file-storage-directory"@,
                PathTarget::RedbFile => "choose-redb-file"@,
                PathTarget::GitDirectory => "choose-git-directory"@,
            },
    {
        match self {
            PathTarget::FileDirectory => "choose-file-storage-directory",
            PathTarget::RedbFile => "choose-redb-file",
            PathTarget::GitDirectory => "choose-git-directory",
        }
    }

    /// The label of the button before a path was picked.
    pub fn choose_label(self) -> (l: &'static str)
        ensures
            l@ == if is_folder_target(self) { "Choose folder"@ } else { "Choose file"@ },
    {
        match self {
            PathTarget::FileDirectory | PathTarget::GitDirectory => "Choose folder",
            PathTarget::RedbFile => "Choose file",
        }
    }

    /// The label of the button once a path was picked.
    pub fn change_label(self) -> (l: &'static str)
        ensures
            l@ == if is_folder_target(self) { "Change folder"@ } else { "Change file"@ },
    {
        match self {
            PathTarget::FileDirectory | PathTarget::GitDirectory => "Change folder",
            PathTarget::RedbFile => "Change file",
        }
    }

    /// What the field shows while no path is picked.
    pub fn empty_label(self) -> (l: &'static str)
        ensures
            l@ == if is_folder_target(self) { "No folder selected"@ } else { "No file selected"@ },
    {
        match self {
            PathTarget::FileDirectory | PathTarget::GitDirectory => "No folder selected",
            PathTarget::RedbFile => "No file selected",
        }
    }

    /// The hint under the field while no path is picked.
    pub fn empty_description(self) -> (l: &'static str)
        ensures
            l@ == if is_folder_target(self) { "Choose a folder to continue."@ } else { "Choose a file to continue."@ },
    {
        match self {
            PathTarget::FileDirectory | PathTarget::GitDirectory => "Choose a folder to continue.",
            PathTarget::RedbFile => "Choose a file to continue.",
        }
    }

    /// The icon of the path's button: a folder, or a file.
    pub fn icon(self) -> (i: Icon)
        ensures
            i == if is_folder_target(self) { Icon::FolderOpen } else { Icon::File },
    {
        match self {
            PathTarget::FileDirectory | PathTarget::GitDirectory => Icon::FolderOpen,
            PathTarget::RedbFile => Icon::File,
        }
    }

    /// How to ask for the path: one folder, or one file.
    pub fn options(self) -> (p: PathPrompt)
        ensures
            p.directories == is_folder_target(self),
            p.files == !is_folder_target(self),
            !p.multiple,
            p.prompt@ == if is_folder_target(self) { "Choose folder"@ } else { "Choose file"@ },
    {
        let directories = match self {
            PathTarget::FileDirectory | PathTarget::GitDirectory => true,
            PathTarget::RedbFile => false,
        };
        PathPrompt { files: !directories, directories, multiple: false, prompt: String::from_str(self.choose_label()) }
    }
}

/// The open screen's inputs.
#[derive(Clone, Debug, PartialEq, Eq)]
pub struct OpenForm {
    pub backend_kind: BackendKind,
    pub file_path: Option<String>,
    pub redb_path: Option<String>,
    pub git_path: Option<String>,
    pub git_remote: String,
    pub git_branch: String,
    pub mongo_conn: String,
    pub mongo_db: String,
    pub proxy_url: String,
    pub proxy_token: String,
}

/// Whether `f` has nothing entered and backend kind `kind`.
pub open spec fn is_blank_form(f: OpenForm, kind: BackendKind) -> bool {
    &&& f.backend_kind == kind
    &&& f.file_path is None
    &&& f.redb_path is None
    &&& f.git_path is None
    &&& f.git_remote@ == Seq::<char>::empty()
    &&& f.git_branch@ == Seq::<char>::empty()
    &&& f.mongo_conn@ == Seq::<char>::empty()
    &&& f.mongo_db@ == Seq::<char>::empty()
    &&& f.proxy_url@ == Seq::<char>::empty()
    &&& f.proxy_token@ == Seq::<char>::empty()
}

/// Whether `g` is the form `f` filled from a recent workspace: its kind is
/// selected and its fields are entered; a proxy's token is cleared.
pub open spec fn filled_from(f: OpenForm, g: OpenForm, recent: RecentWorkspace) -> bool {
    match recent {
        RecentWorkspace::File { path } => g == OpenForm { backend_kind: BackendKind::File, file_path: Some(path), ..f },
        RecentWorkspace::Redb { path } => g == OpenForm { backend_kind: BackendKind::Redb, redb_path: Some(path), ..f },
        RecentWorkspace::Git { path, remote, branch } => g == OpenForm {
            backend_kind: BackendKind::Git,
            git_path: Some(path),
            git_remote: remote,
            git_branch: branch,
            ..f
        },
        RecentWorkspace::Mongo { conn_str, db_name } => g == OpenForm {
            backend_kind: BackendKind::Mongo,
            mongo_conn: conn_str,
            mongo_db: db_name,
            ..f
        },
        RecentWorkspace::Proxy { url } => g == OpenForm {
            backend_kind: BackendKind::Proxy,
            proxy_url: url,
            proxy_token: g.proxy_token,
            ..f
        } && g.proxy_token@ == Seq::<char>::empty(),
    }
}

/// Whether `g` is the form `f` filled from the first recent workspace of
/// its kind, or `f` itself where there is none.
pub open spec fn restored_from(f: OpenForm, g: OpenForm, settings: GuiSettings) -> bool {
    match first_of_backend(settings.recent_workspaces@, recent_backend_of(f.backend_kind), 0) {
        Some(recent) => filled_from(f, g, recent),
        None => g == f,
    }
}

/// Whether a config matches the form: each field as the form holds it.
pub open spec fn config_of_form(f: OpenForm, c: WorkspaceBackendConfig) -> bool {
    match f.backend_kind {
        BackendKind::Memory => c == WorkspaceBackendConfig::Memory,
        BackendKind::File => c matches WorkspaceBackendConfig::File { path } && f.file_path matches Some(p) && path@ == p@,
        BackendKind::Redb => c matches WorkspaceBackendConfig::Redb { path } && f.redb_path matches Some(p) && path@ == p@,
        BackendKind::Git => c matches WorkspaceBackendConfig::Git { path, remote, branch } && f.git_path matches Some(p)
            && path@ == p@ && remote@ == f.git_remote@ && branch@ == f.git_branch@,
        BackendKind::Mongo => c matches WorkspaceBackendConfig::Mongo { conn_str, db_name }
            && conn_str@ == f.mongo_conn@ && db_name@ == f.mongo_db@,
        BackendKind::Proxy => c matches WorkspaceBackendConfig::Proxy { url, auth_token } && url@ == f.proxy_url@
            && if trimmed(f.proxy_token@).len() == 0 { auth_token is None } else {
                auth_token matches Some(t) && t@ == f.proxy_token@
            },
    }
}

/// Whether a path field is filled with something that is not blank.
pub open spec fn path_given(p: Option<String>) -> bool {
    p matches Some(s) && trimmed(s@).len() > 0
}

/// The message telling what the form lacks, if anything.
pub open spec fn form_problem(f: OpenForm) -> Option<Seq<char>> {
    match f.backend_kind {
        BackendKind::Memory => None,
        BackendKind::File => if path_given(f.file_path) { None } else { Some("Choose a file storage folder"@) },
        BackendKind::Redb => if path_given(f.redb_path) { None } else { Some("Choose a redb file"@) },
        BackendKind::Git => if path_given(f.git_path) { None } else { Some("Choose a git storage folder"@) },
        BackendKind::Mongo => if trimmed(f.mongo_conn@).len() == 0 {
            Some("Enter a Mongo connection string"@)
        } else if trimmed(f.mongo_db@).len() == 0 {
            Some("Enter a Mongo database name"@)
        } else {
            None
        },
        BackendKind::Proxy => if trimmed(f.proxy_url@).len() == 0 { Some("Enter a proxy URL"@) } else { None },
    }
}

fn required_text(value: &String, message: &str) -> (r: Result<String, String>)
    ensures
        trimmed(value@).len() == 0 ==> (r matches Err(m) && m@ == message@),
        trimmed(value@).len() > 0 ==> (r matches Ok(v) && v@ == value@),
{
    if is_blank(value.as_str()) {
        Err(String::from_str(message))
    } else {
        Ok(copy_string(value))
    }
}

fn required_path_of(path: &Option<String>, message: &str) -> (r: Result<String, String>)
    ensures
        path_given(*path) ==> (r matches Ok(v) && v@ == path->0@),
        !path_given(*path) ==> (r matches Err(m) && m@ == message@),
{
    match path {
        Some(p) => required_text(p, message),
        None => Err(String::from_str(message)),
    }
}

impl OpenForm {
    /// A form with nothing entered, for backend kind `kind`.
    pub fn blank(kind: BackendKind) -> (f: OpenForm)
        ensures
            is_blank_form(f, kind),
    {
        OpenForm {
            backend_kind: kind,
            file_path: None,
            redb_path: None,
            git_path: None,
            git_remote: String::new(),
            git_branch: String::new(),
            mongo_conn: String::new(),
            mongo_db: String::new(),
            proxy_url: String::new(),
            proxy_token: String::new(),
        }
    }

    /// A form with nothing entered, for the remembered backend kind or
    /// `Memory`, filled from the first recent workspace of that kind.
    pub fn new(settings: &GuiSettings) -> (f: OpenForm)
        ensures
            exists|base: OpenForm| #![auto]
                is_blank_form(base, match settings.last_backend {
                    Some(b) => kind_of_recent(b),
                    None => BackendKind::Memory,
                }) && restored_from(base, f, *settings),
    {
        let backend_kind = match settings.last_backend {
            Some(b) => BackendKind::from_recent_backend(b),
            None => BackendKind::Memory,
        };
        let mut f = OpenForm::blank(backend_kind);
        let ghost base = f;
        f.restore_first_recent_for_selected_backend(settings);
        assert(is_blank_form(base, backend_kind) && restored_from(base, f, *settings));
        f
    }

    /// Fills the form from a recent workspace and selects its kind.
    pub fn apply_recent_workspace(&mut self, recent: &RecentWorkspace)
        ensures
            filled_from(*old(self), *final(self), *recent),
    {
        self.backend_kind = BackendKind::from_recent_backend(recent.backend());
        match recent {
            RecentWorkspace::File { path } => {
                self.file_path = Some(path.clone());
            },
            RecentWorkspace::Redb { path } => {
                self.redb_path = Some(path.clone());
            },
            RecentWorkspace::Git { path, remote, branch } => {
                self.git_path = Some(path.clone());
                self.git_remote = remote.clone();
                self.git_branch = branch.clone();
            },
            RecentWorkspace::Mongo { conn_str, db_name } => {
                self.mongo_conn = conn_str.clone();
                self.mongo_db = db_name.clone();
            },
            RecentWorkspace::Proxy { url } => {
                self.proxy_url = url.clone();
                self.proxy_token = String::new();
            },
        }
    }

    /// Fills the form from the first recent workspace of the selected kind.
    pub fn restore_first_recent_for_selected_backend(&mut self, settings: &GuiSettings)
        ensures
            restored_from(*old(self), *final(self), *settings),
    {
        match settings.first_recent_for_backend(self.backend_kind.to_recent_backend()) {
            Some(recent) => self.apply_recent_workspace(recent),
            None => {},
        }
    }

    /// Selects a backend kind and fills the form from its first recent
    /// workspace.
    pub fn select_backend(&mut self, kind: BackendKind, settings: &GuiSettings)
        ensures
            restored_from(OpenForm { backend_kind: kind, ..*old(self) }, *final(self), *settings),
    {
        self.backend_kind = kind;
        self.restore_first_recent_for_selected_backend(settings);
    }

    /// Records the path picked for `target`.
    pub fn set_selected_path(&mut self, target: PathTarget, path: String)
        ensures
            *final(self) == match target {
                PathTarget::FileDirectory => OpenForm { file_path: Some(path), ..*old(self) },
                PathTarget::RedbFile => OpenForm { redb_path: Some(path), ..*old(self) },
                PathTarget::GitDirectory => OpenForm { git_path: Some(path), ..*old(self) },
            },
    {
        match target {
            PathTarget::FileDirectory => self.file_path = Some(path),
            PathTarget::RedbFile => self.redb_path = Some(path),
            PathTarget::GitDirectory => self.git_path = Some(path),
        }
    }

    /// The path picked for `target`.
    pub fn selected_path(&self, target: PathTarget) -> (p: Option<&String>)
        ensures
            match p {
                Some(s) => Some(*s) == selected_path_of(*self, target),
                None => selected_path_of(*self, target) is None,
            },
    {
        match target {
            PathTarget::FileDirectory => self.file_path.as_ref(),
            PathTarget::RedbFile => self.redb_path.as_ref(),
            PathTarget::GitDirectory => self.git_path.as_ref(),
        }
    }

    /// The workspace the form describes, or what it lacks.
    pub fn backend_config(&self) -> (r: Result<WorkspaceBackendConfig, String>)
        ensures
            match form_problem(*self) {
                Some(m) => r matches Err(e) && e@ == m,
                None => r matches Ok(c) && config_of_form(*self, c),
            },
    {
        match self.backend_kind {
            BackendKind::Memory => Ok(WorkspaceBackendConfig::Memory),
            BackendKind::File => match required_path_of(&self.file_path, "Choose a file storage folder") {
                Ok(path) => Ok(WorkspaceBackendConfig::File { path }),
                Err(e) => Err(e),
            },
            BackendKind::Redb => match required_path_of(&self.redb_path, "Choose a redb file") {
                Ok(path) => Ok(WorkspaceBackendConfig::Redb { path }),
                Err(e) => Err(e),
            },
            BackendKind::Git => match required_path_of(&self.git_path, "Choose a git storage folder") {
                Ok(path) => Ok(WorkspaceBackendConfig::Git {
                    path,
                    remote: copy_string(&self.git_remote),
                    branch: copy_string(&self.git_branch),
                }),
                Err(e) => Err(e),
            },
            BackendKind::Mongo => {
                let conn_str = match required_text(&self.mongo_conn, "Enter a Mongo connection string") {
                    Ok(v) => v,
                    Err(e) => return Err(e),
                };
                let db_name = match required_text(&self.mongo_db, "Enter a Mongo database name") {
                    Ok(v) => v,
                    Err(e) => return Err(e),
                };
                Ok(WorkspaceBackendConfig::Mongo { conn_str, db_name })
            },
            BackendKind::Proxy => {
                let url = match required_text(&self.proxy_url, "Enter a proxy URL") {
                    Ok(v) => v,
                    Err(e) => return Err(e),
                };
                let auth_token = if is_blank(self.proxy_token.as_str()) {
                    None
                } else {
                    Some(copy_string(&self.proxy_token))
                };
                Ok(WorkspaceBackendConfig::Proxy { url, auth_token })
            },
        }
    }

    /// Whether the form describes a workspace that can be opened.
    pub fn can_open_workspace(&self) -> (b: bool)
        ensures
            b == (form_problem(*self) is None),
    {
        self.backend_config().is_ok()
    }
}

/// The recent workspace remembered for a config, none for memory storage.
pub open spec fn recent_of_config(c: WorkspaceBackendConfig) -> Option<RecentWorkspace> {
    match c {
        WorkspaceBackendConfig::Memory => None,
        WorkspaceBackendConfig::File { path } => Some(RecentWorkspace::File { path }),
        WorkspaceBackendConfig::Redb { path } => Some(RecentWorkspace::Redb { path }),
        WorkspaceBackendConfig::Git { path, remote, branch } => Some(RecentWorkspace::Git { path, remote, branch }),
        WorkspaceBackendConfig::Mongo { conn_str, db_name } => Some(RecentWorkspace::Mongo { conn_str, db_name }),
        WorkspaceBackendConfig::Proxy { url, .. } => Some(RecentWorkspace::Proxy { url }),
    }
}

/// The recent workspace to remember for a config; a proxy's token is not
/// remembered.
pub fn recent_from_config(config: &WorkspaceBackendConfig) -> (r: Option<RecentWorkspace>)
    ensures
        r == recent_of_config(*config),
{
    match config {
        WorkspaceBackendConfig::Memory => None,
        WorkspaceBackendConfig::File { path } => Some(RecentWorkspace::File { path: path.clone() }),
        WorkspaceBackendConfig::Redb { path } => Some(RecentWorkspace::Redb { path: path.clone() }),
        WorkspaceBackendConfig::Git { path, remote, branch } => Some(
            RecentWorkspace::Git { path: path.clone(), remote: remote.clone(), branch: branch.clone() },
        ),
        WorkspaceBackendConfig::Mongo { conn_str, db_name } => Some(
            RecentWorkspace::Mongo { conn_str: conn_str.clone(), db_name: db_name.clone() },
        ),
        WorkspaceBackendConfig::Proxy { url, .. } => Some(RecentWorkspace::Proxy { url: url.clone() }),
    }
}

/// Remembers a workspace that opened: its kind, and the workspace itself
/// in the recent list. Writing the settings out is the caller's part.
pub fn persist_successful_open(settings: &mut GuiSettings, last_backend: RecentBackend, recent: Option<RecentWorkspace>)
    ensures
        final(settings).last_backend == Some(last_backend),
        final(settings).recent_workspaces@ == match recent {
            Some(r) => upserted(old(settings).recent_workspaces@, r),
            None => old(settings).recent_workspaces@,
        },
{
    settings.last_backend = Some(last_backend);
    if let Some(recent) = recent {
        settings.upsert_recent(recent);
    }
}

/// Whether two recent workspaces have the same kind and the same text in
/// each field.
pub open spec fn same_recent(a: RecentWorkspace, b: RecentWorkspace) -> bool {
    match (a, b) {
        (RecentWorkspace::File { path: p }, RecentWorkspace::File { path: q }) => p@ == q@,
        (RecentWorkspace::Redb { path: p }, RecentWorkspace::Redb { path: q }) => p@ == q@,
        (
            RecentWorkspace::Git { path: p, remote: r, branch: b1 },
            RecentWorkspace::Git { path: q, remote: s, branch: b2 },
        ) => p@ == q@ && r@ == s@ && b1@ == b2@,
        (
            RecentWorkspace::Mongo { conn_str: c1, db_name: d1 },
            RecentWorkspace::Mongo { conn_str: c2, db_name: d2 },
        ) => c1@ == c2@ && d1@ == d2@,
        (RecentWorkspace::Proxy { url: u1 }, RecentWorkspace::Proxy { url: u2 }) => u1@ == u2@,
        _ => false,
    }
}

/// Whether a recent workspace has every field that opening it needs.
pub open spec fn recent_complete(w: RecentWorkspace) -> bool {
    match w {
        RecentWorkspace::File { path } => trimmed(path@).len() > 0,
        RecentWorkspace::Redb { path } => trimmed(path@).len() > 0,
        RecentWorkspace::Git { path, .. } => trimmed(path@).len() > 0,
        RecentWorkspace::Mongo { conn_str, db_name } => trimmed(conn_str@).len() > 0 && trimmed(db_name@).len() > 0,
        RecentWorkspace::Proxy { url } => trimmed(url@).len() > 0,
    }
}

/// A remembered workspace reopens as itself: filling the form from it
/// leaves nothing missing exactly when it has every field it needs, and
/// the workspace the form then describes is remembered as the same one.
pub proof fn law_recent_workspace_reopens_as_itself(f: OpenForm, g: OpenForm, w: RecentWorkspace, c: WorkspaceBackendConfig)
    requires
        filled_from(f, g, w),
    ensures
        (form_problem(g) is None) == recent_complete(w),
        form_problem(g) is None && config_of_form(g, c) ==> (recent_of_config(c) matches Some(r) && same_recent(r, w)),
{
}

/// The prefix of a directory item id in the tree widget.
pub open spec fn directory_prefix() -> Seq<char> {
    "dir:"@
}

/// The prefix of a note item id in the tree widget.
pub open spec fn note_prefix() -> Seq<char> {
    "note:"@
}

/// The tree widget's id for directory `id`.
pub fn directory_item_id(id: &str) -> (r: String)
    ensures
        r@ == directory_prefix() + id@,
{
    let mut s = String::from_str("dir:");
    append(&mut s, id);
    s
}

/// The tree widget's id for note `id`.
pub fn note_item_id(id: &str) -> (r: String)
    ensures
        r@ == note_prefix() + id@,
{
    let mut s = String::from_str("note:");
    append(&mut s, id);
    s
}

/// What a tree widget item id stands for: a directory or a note and its
/// id; `None` for the placeholder of a directory still loading.
pub fn parse_tree_item_id(item_id: &str) -> (r: Option<(TreeRowKind, String)>)
    ensures
        directory_prefix().is_prefix_of(item_id@) ==> (r matches Some((k, id))
            && k == TreeRowKind::Directory && id@ == item_id@.skip(4)),
        !directory_prefix().is_prefix_of(item_id@) && note_prefix().is_prefix_of(item_id@) ==> (r matches Some((k, id))
            && k == TreeRowKind::Note && id@ == item_id@.skip(5)),
        !directory_prefix().is_prefix_of(item_id@) && !note_prefix().is_prefix_of(item_id@) ==> r is None,
{
    proof {
        reveal_strlit("dir:");
        reveal_strlit("note:");
    }
    if let Some(id) = strip_prefix(item_id, "dir:") {
        return Some((TreeRowKind::Directory, id));
    }
    if let Some(id) = strip_prefix(item_id, "note:") {
        return Some((TreeRowKind::Note, id));
    }
    None
}

/// An item of the tree widget.
#[derive(Debug, PartialEq, Eq)]
pub struct TreeItemModel {
    pub id: String,
    pub label: String,
    pub expanded: bool,
    pub disabled: bool,
    pub children: Vec<TreeItemModel>,
}

/// A tree widget item as a mathematical value.
pub struct ItemView {
    pub id: Seq<char>,
    pub label: Seq<char>,
    pub expanded: bool,
    pub disabled: bool,
    pub children: Seq<ItemView>,
}

/// The value of a tree widget item.
pub open spec fn item_view(item: TreeItemModel) -> ItemView
    decreases item, 1nat, 0nat,
{
    ItemView {
        id: item.id@,
        label: item.label@,
        expanded: item.expanded,
        disabled: item.disabled,
        children: item_children_view(item, 0),
    }
}

/// The values of the children of `item`, from the `i`-th on.
pub open spec fn item_children_view(item: TreeItemModel, i: nat) -> Seq<ItemView>
    decreases item, 0nat, item.children@.len() - i,
{
    if i >= item.children@.len() {
        Seq::empty()
    } else {
        seq![item_view(item.children@[i as int])] + item_children_view(item, i + 1)
    }
}

proof fn lemma_item_children_view_from(item: TreeItemModel, i: nat)
    requires
        i <= item.children@.len(),
    ensures
        item_children_view(item, i).len() == item.children@.len() - i,
        forall|k: int| 0 <= k < item.children@.len() - i ==> #[trigger] item_children_view(item, i)[k] == item_view(item.children@[i + k]),
    decreases item.children@.len() - i,
{
    if i < item.children@.len() {
        lemma_item_children_view_from(item, i + 1);
        assert forall|k: int| 0 <= k < item.children@.len() - i implies #[trigger] item_children_view(item, i)[k] == item_view(item.children@[i + k]) by {
            if k > 0 {
                assert(item_children_view(item, i)[k] == item_children_view(item, i + 1)[k - 1]);
            }
        }
    }
}

/// A leaf item.
pub open spec fn leaf_item(id: Seq<char>, label: Seq<char>, disabled: bool) -> ItemView {
    ItemView { id, label, expanded: false, disabled, children: Seq::empty() }
}

/// The items under a tree node: a disabled placeholder while it is not
/// loaded, then its directories, then its notes.
pub open spec fn node_item(t: TreeView) -> ItemView
    decreases t, 1nat, 0nat,
{
    ItemView {
        id: directory_prefix() + t.directory.id@,
        label: t.directory.name@,
        expanded: t.expanded,
        disabled: false,
        children: (if t.loaded { Seq::empty() } else {
            seq![leaf_item("loading:"@ + t.directory.id@, "Loading..."@, true)]
        }) + node_items_from(t, 0) + t.notes.map_values(|n: crate::data::Note| leaf_item(note_prefix() + n.id@, n.name@, false)),
    }
}

/// The items of the child directories of `t` from the `i`-th on.
pub open spec fn node_items_from(t: TreeView, i: nat) -> Seq<ItemView>
    decreases t, 0nat, t.directories.len() - i,
{
    if i >= t.directories.len() {
        Seq::empty()
    } else {
        seq![node_item(t.directories[i as int])] + node_items_from(t, i + 1)
    }
}

fn leaf(id: String, label: String, disabled: bool) -> (item: TreeItemModel)
    ensures
        item_view(item) == leaf_item(id@, label@, disabled),
{
    let item = TreeItemModel { id, label, expanded: false, disabled, children: Vec::new() };
    proof {
        lemma_item_children_view_from(item, 0);
        assert(item_children_view(item, 0) =~= Seq::<ItemView>::empty());
    }
    item
}

/// The tree widget's items for a node.
pub fn tree_item_for_node(node: &TreeNode) -> (item: TreeItemModel)
    ensures
        item_view(item) == node_item(node@),
    decreases node,
{
    let mut children: Vec<TreeItemModel> = Vec::new();
    let ghost pre: Seq<ItemView> = if node.loaded { Seq::empty() } else {
        seq![leaf_item("loading:"@ + node.directory.id@, "Loading..."@, true)]
    };
    if !node.loaded {
        let mut id = String::from_str("loading:");
        append(&mut id, node.directory.id.as_str());
        children.push(leaf(id, String::from_str("Loading..."), true));
    }
    proof {
        lemma_children_view(*node);
    }
    let ghost own = node@;
    let n = node.directories.len();
    for i in 0..n
        invariant
            n == node.directories@.len(),
            n == own.directories.len(),
            own == node@,
            forall|k: int| 0 <= k < n ==> #[trigger] own.directories[k] == node.directories@[k]@,
            children@.map_values(|c: TreeItemModel| item_view(c)) + node_items_from(own, i as nat)
                == pre + node_items_from(own, 0),
    {
        let ghost before = children@.map_values(|c: TreeItemModel| item_view(c));
        let child = tree_item_for_node(&node.directories[i]);
        let ghost cv = item_view(child);
        children.push(child);
        assert(children@.map_values(|c: TreeItemModel| item_view(c)) =~= before.push(cv));
        assert(node_items_from(own, i as nat) =~= seq![cv] + node_items_from(own, (i + 1) as nat));
        assert(children@.map_values(|c: TreeItemModel| item_view(c)) + node_items_from(own, (i + 1) as nat)
            =~= before + node_items_from(own, i as nat));
    }
    assert(node_items_from(own, n as nat) =~= Seq::<ItemView>::empty());
    let ghost mid = children@.map_values(|c: TreeItemModel| item_view(c));
    let ghost note_items = own.notes.map_values(|x: crate::data::Note| leaf_item(note_prefix() + x.id@, x.name@, false));
    let m = node.notes.len();
    for j in 0..m
        invariant
            m == node.notes@.len(),
            own.notes == node.notes@,
            note_items == own.notes.map_values(|x: crate::data::Note| leaf_item(note_prefix() + x.id@, x.name@, false)),
            children@.map_values(|c: TreeItemModel| item_view(c)) == mid + note_items.take(j as int),
    {
        let ghost before = children@.map_values(|c: TreeItemModel| item_view(c));
        let item = leaf(note_item_id(node.notes[j].id.as_str()), copy_string(&node.notes[j].name), false);
        let ghost cv = item_view(item);
        children.push(item);
        assert(children@.map_values(|c: TreeItemModel| item_view(c)) =~= before.push(cv));
        assert(note_items.take(j + 1) =~= note_items.take(j as int).push(note_items[j as int]));
    }
    assert(note_items.take(m as int) =~= note_items);
    let item = TreeItemModel {
        id: directory_item_id(node.directory.id.as_str()),
        label: copy_string(&node.directory.name),
        expanded: node.expanded,
        disabled: false,
        children,
    };
    proof {
        lemma_item_children_view_from(item, 0);
        assert(item_children_view(item, 0) =~= children@.map_values(|c: TreeItemModel| item_view(c)));
        assert(item_view(item) =~= node_item(node@));
    }
    item
}

/// The position of the first selected row.
pub open spec fn first_selected(rows: Seq<RowView>, i: nat) -> Option<nat>
    decreases rows.len() - i,
{
    if i >= rows.len() {
        None
    } else if rows[i as int].selected {
        Some(i)
    } else {
        first_selected(rows, i + 1)
    }
}

/// The position of the first selected row, which the tree widget shows as
/// selected.
pub fn selected_row_index(rows: &Vec<TreeRow>) -> (r: Option<usize>)
    ensures
        match first_selected(rows@.map_values(|row: TreeRow| row_view(row)), 0) {
            Some(k) => r is Some && r->0 == k,
            None => r is None,
        },
{
    let ghost views = rows@.map_values(|row: TreeRow| row_view(row));
    let n = rows.len();
    for i in 0..n
        invariant
            n == rows@.len(),
            views == rows@.map_values(|row: TreeRow| row_view(row)),
            first_selected(views, 0) == first_selected(views, i as nat),
    {
        assert(views[i as int].selected == rows@[i as int].selected);
        if rows[i].selected {
            return Some(i);
        }
    }
    None
}

/// The breadcrumb above the viewer: the directories down to the active
/// note, then its name.
pub fn note_breadcrumb(workspace: &WorkspaceModel) -> (r: Vec<String>)
    ensures
        r@.map_values(|s: String| s@) == match workspace.active_note_spec() {
            None => Seq::empty(),
            Some(t) => dir_path_or_empty(workspace.root_view(), t.note.directory_id@).push(t.note.name@),
        },
{
    let mut path = workspace.opened_note_directory_path();
    match workspace.active_note() {
        Some(opened) => {
            let ghost before = path@.map_values(|s: String| s@);
            path.push(copy_string(&opened.note.name));
            assert(path@.map_values(|s: String| s@) =~= before.push(opened.note.name@));
        },
        None => {},
    }
    path
}

/// The text of the long note used by the viewer's visual check.
pub fn visual_long_note_content() -> (s: String)
    ensures
        s@ == crate::text::join_spec(seq![
            "# Long wrapping note"@,
            ""@,
            "This viewer keeps the source text intact, but long lines should wrap inside the editor instead of forcing horizontal scrolling in the first read-only pass."@,
            ""@,
            "The line-number gutter, breadcrumb, and tab bar should stay fixed while the note content uses the remaining vertical space."@,
            ""@,
            "- Backend selection stays outside the tree."@,
            "- Opening a note creates a tab."@,
            "- Closing and reordering tabs should not disturb the visible editor layout."@,
            ""@,
            "A second deliberately long sentence checks that wrapping continues to use the same left edge after the first visual line, making the read-only view feel like an editor instead of a formatted document preview."@,
            ""@,
            "End of sample."@,
        ]),
{
    let mut lines: Vec<String> = Vec::new();
    lines.push(String::from_str("# Long wrapping note"));
    lines.push(String::from_str(""));
    lines.push(String::from_str("This viewer keeps the source text intact, but long lines should wrap inside the editor instead of forcing horizontal scrolling in the first read-only pass."));
    lines.push(String::from_str(""));
    lines.push(String::from_str("The line-number gutter, breadcrumb, and tab bar should stay fixed while the note content uses the remaining vertical space."));
    lines.push(String::from_str(""));
    lines.push(String::from_str("- Backend selection stays outside the tree."));
    lines.push(String::from_str("- Opening a note creates a tab."));
    lines.push(String::from_str("- Closing and reordering tabs should not disturb the visible editor layout."));
    lines.push(String::from_str(""));
    lines.push(String::from_str("A second deliberately long sentence checks that wrapping continues to use the same left edge after the first visual line, making the read-only view feel like an editor instead of a formatted document preview."));
    lines.push(String::from_str(""));
    lines.push(String::from_str("End of sample."));
    let ghost expected = seq![
        "# Long wrapping note"@,
        ""@,
        "This viewer keeps the source text intact, but long lines should wrap inside the editor instead of forcing horizontal scrolling in the first read-only pass."@,
        ""@,
        "The line-number gutter, breadcrumb, and tab bar should stay fixed while the note content uses the remaining vertical space."@,
        ""@,
        "- Backend selection stays outside the tree."@,
        "- Opening a note creates a tab."@,
        "- Closing and reordering tabs should not disturb the visible editor layout."@,
        ""@,
        "A second deliberately long sentence checks that wrapping continues to use the same left edge after the first visual line, making the read-only view feel like an editor instead of a formatted document preview."@,
        ""@,
        "End of sample."@,
    ];
    assert(lines@.map_values(|l: String| l@) =~= expected);
    crate::text::join_lines(&lines)
}

/// The recent workspaces shown by the open screen's visual check.
pub fn visual_recent_settings() -> (s: GuiSettings)
    ensures
        s.last_backend == Some(RecentBackend::File),
        s.recent_workspaces@.len() == 4,
        s.recent_workspaces@[0] matches RecentWorkspace::File { path } && path@ == "/Users/dev/Notes/glues-file"@,
        s.recent_workspaces@[1] matches RecentWorkspace::Redb { path } && path@ == "/Users/dev/Notes/archive.redb"@,
        s.recent_workspaces@[2] matches RecentWorkspace::Git { path, remote, branch }
            && path@ == "/Users/dev/Workspace/glues-notes"@ && remote@ == "git@github.com:example/notes.git"@
            && branch@ == "main"@,
        s.recent_workspaces@[3] matches RecentWorkspace::Proxy { url } && url@ == "https://notes.example.test"@,
{
    let mut recent_workspaces: Vec<RecentWorkspace> = Vec::new();
    recent_workspaces.push(RecentWorkspace::File { path: String::from_str("/Users/dev/Notes/glues-file") });
    recent_workspaces.push(RecentWorkspace::Redb { path: String::from_str("/Users/dev/Notes/archive.redb") });
    recent_workspaces.push(RecentWorkspace::Git {
        path: String::from_str("/Users/dev/Workspace/glues-notes"),
        remote: String::from_str("git@github.com:example/notes.git"),
        branch: String::from_str("main"),
    });
    recent_workspaces.push(RecentWorkspace::Proxy { url: String::from_str("https://notes.example.test") });
    GuiSettings { last_backend: Some(RecentBackend::File), recent_workspaces }
}

} // verus!
