use glues::access::PostPlan;
use glues::data::{Directory, Note};
use glues::loader::{AccessLoader, RemovalCollector};
use glues::mcp::{AddNote, GetNote, ListNotes};
use glues::proxy::{ProxyRequest, ProxyResponse, ResultPayload};
use glues::server::{bearer_allows, RequestStep, ServerState};

/// A note store kept in memory that answers proxy requests.
struct Store {
    directories: Vec<Directory>,
    notes: Vec<Note>,
    next_id: usize,
}

impl Store {
    fn new() -> Store {
        Store {
            directories: vec![Directory { id: "root".to_string(), parent_id: "root".to_string(), name: "Notes".to_string() }],
            notes: Vec::new(),
            next_id: 0,
        }
    }

    fn fresh_id(&mut self) -> String {
        self.next_id += 1;
        format!("id{}", self.next_id)
    }

    fn children(&self, id: &str) -> Vec<String> {
        self.directories.iter().filter(|d| d.parent_id == id && d.id != id).map(|d| d.id.clone()).collect()
    }

    fn notes_in(&self, id: &str) -> Vec<String> {
        self.notes.iter().filter(|n| n.directory_id == id).map(|n| n.id.clone()).collect()
    }

    fn directory(&self, id: &str) -> Option<Directory> {
        self.directories.iter().find(|d| d.id == id).cloned()
    }

    fn handle(&mut self, request: ProxyRequest) -> ProxyResponse {
        match request {
            ProxyRequest::RootId => ProxyResponse::Success(ResultPayload::Id("root".to_string())),
            ProxyRequest::FetchDirectory { directory_id } => match self.directory(&directory_id) {
                Some(d) => ProxyResponse::Success(ResultPayload::Directory(d)),
                None => ProxyResponse::Failure("not found".to_string()),
            },
            ProxyRequest::AddDirectory { parent_id, name } => {
                let id = self.fresh_id();
                let directory = Directory { id, parent_id, name };
                self.directories.push(directory.clone());
                ProxyResponse::Success(ResultPayload::Directory(directory))
            }
            ProxyRequest::AddNote { directory_id, name } => {
                let id = self.fresh_id();
                let note = Note { id, directory_id, name };
                self.notes.push(note.clone());
                ProxyResponse::Success(ResultPayload::Note(note))
            }
            ProxyRequest::RenameDirectory { directory_id, name } => {
                for d in self.directories.iter_mut().filter(|d| d.id == directory_id) {
                    d.name = name.clone();
                }
                ProxyResponse::Success(ResultPayload::Unit)
            }
            ProxyRequest::RemoveDirectory { directory_id } => {
                let mut gone = vec![directory_id];
                let mut i = 0;
                while i < gone.len() {
                    let children = self.children(&gone[i]);
                    gone.extend(children);
                    i += 1;
                }
                self.directories.retain(|d| !gone.contains(&d.id));
                self.notes.retain(|n| !gone.contains(&n.directory_id));
                ProxyResponse::Success(ResultPayload::Unit)
            }
            ProxyRequest::MoveNote { note_id, directory_id } => {
                for n in self.notes.iter_mut().filter(|n| n.id == note_id) {
                    n.directory_id = directory_id.clone();
                }
                ProxyResponse::Success(ResultPayload::Unit)
            }
            ProxyRequest::FetchNotes { directory_id } => ProxyResponse::Success(ResultPayload::Notes(
                self.notes.iter().filter(|n| n.directory_id == directory_id).cloned().collect(),
            )),
            ProxyRequest::FetchNoteContent { note_id } => match self.notes.iter().find(|n| n.id == note_id) {
                Some(_) => ProxyResponse::Success(ResultPayload::Text(String::new())),
                None => ProxyResponse::Failure("not found".to_string()),
            },
            _ => ProxyResponse::Success(ResultPayload::Unit),
        }
    }
}

/// The proxy server: the guard over the store.
struct Server {
    state: ServerState,
    store: Store,
}

impl Server {
    fn new(store: Store, allowed_root: Option<String>) -> Server {
        let access = allowed_root.map(|root| {
            let mut loader = AccessLoader::start(root);
            while let Some(directory) = loader.next_directory() {
                let children = store.children(&directory);
                let notes = store.notes_in(&directory);
                loader.visit(&children, &notes);
            }
            loader.finish()
        });
        Server { state: ServerState::new(access), store }
    }

    fn handle(&mut self, request: ProxyRequest) -> ProxyResponse {
        match self.state.begin_request(&request) {
            RequestStep::Respond(response) => response,
            RequestStep::Forward { post_plan, collect_removal } => {
                let post_plan = match collect_removal {
                    Some(directory_id) => {
                        let mut collector = RemovalCollector::start(directory_id);
                        while let Some(directory) = collector.next_directory() {
                            let children = self.store.children(&directory);
                            let notes = self.store.notes_in(&directory);
                            collector.visit(&children, &notes);
                        }
                        PostPlan::RemoveDirectory(collector.finish())
                    }
                    None => post_plan,
                };
                let response = self.store.handle(request);
                self.state.finish_request(post_plan, &response);
                response
            }
        }
    }
}

fn expect_directory(response: ProxyResponse) -> Directory {
    match response {
        ProxyResponse::Success(ResultPayload::Directory(dir)) => dir,
        other => panic!("expected directory response, got {other:?}"),
    }
}

fn expect_note(response: ProxyResponse) -> Note {
    match response {
        ProxyResponse::Success(ResultPayload::Note(note)) => note,
        other => panic!("expected note response, got {other:?}"),
    }
}

fn expect_id(response: ProxyResponse) -> String {
    match response {
        ProxyResponse::Success(ResultPayload::Id(id)) => id,
        other => panic!("expected id response, got {other:?}"),
    }
}

fn expect_unit(response: ProxyResponse) {
    match response {
        ProxyResponse::Success(ResultPayload::Unit) => {}
        other => panic!("expected unit response, got {other:?}"),
    }
}

fn expect_err_contains(response: ProxyResponse, needle: &str) {
    match response {
        ProxyResponse::Failure(message) if message.contains(needle) => {}
        ProxyResponse::Failure(message) => panic!("unexpected error message: {message}"),
        other => panic!("expected error response, got {other:?}"),
    }
}

#[test]
fn proxy_guard_enforces_allowed_subtree() {
    let mut proxy = Server::new(Store::new(), None);
    let root_id = expect_id(proxy.handle(ProxyRequest::RootId));
    let allowed_dir = expect_directory(
        proxy.handle(ProxyRequest::AddDirectory { parent_id: root_id.clone(), name: "allowed".into() }),
    );
    let outside_dir = expect_directory(
        proxy.handle(ProxyRequest::AddDirectory { parent_id: root_id.clone(), name: "outside".into() }),
    );
    let nested_dir = expect_directory(
        proxy.handle(ProxyRequest::AddDirectory { parent_id: allowed_dir.id.clone(), name: "nested".into() }),
    );
    let note = expect_note(proxy.handle(ProxyRequest::AddNote { directory_id: nested_dir.id.clone(), name: "note".into() }));

    let mut state = Server::new(proxy.store, Some(allowed_dir.id.clone()));

    let seen_root = expect_id(state.handle(ProxyRequest::RootId));
    assert_eq!(seen_root, allowed_dir.id);

    expect_err_contains(
        state.handle(ProxyRequest::FetchDirectory { directory_id: outside_dir.id.clone() }),
        "outside the allowed subtree",
    );
    expect_err_contains(
        state.handle(ProxyRequest::AddDirectory { parent_id: root_id.clone(), name: "blocked".into() }),
        "outside the allowed subtree",
    );
    let new_child = expect_directory(
        state.handle(ProxyRequest::AddDirectory { parent_id: allowed_dir.id.clone(), name: "child".into() }),
    );
    expect_unit(state.handle(ProxyRequest::RenameDirectory { directory_id: new_child.id.clone(), name: "renamed".into() }));
    expect_err_contains(
        state.handle(ProxyRequest::MoveNote { note_id: note.id.clone(), directory_id: outside_dir.id.clone() }),
        "outside the allowed subtree",
    );
    expect_unit(state.handle(ProxyRequest::RemoveDirectory { directory_id: nested_dir.id.clone() }));
    expect_err_contains(
        state.handle(ProxyRequest::FetchNoteContent { note_id: note.id.clone() }),
        "outside the allowed subtree",
    );
    expect_err_contains(
        state.handle(ProxyRequest::RenameDirectory { directory_id: nested_dir.id.clone(), name: "should-fail".into() }),
        "outside the allowed subtree",
    );
    expect_err_contains(
        state.handle(ProxyRequest::RenameDirectory { directory_id: allowed_dir.id.clone(), name: "forbidden".into() }),
        "not permitted",
    );
}

#[test]
fn options_requests_bypass_auth() {
    assert!(bearer_allows(true, None, "secret"), "preflight request should succeed");
}

#[test]
fn missing_token_still_rejected_for_non_preflight() {
    assert!(!bearer_allows(false, None, "secret"));
    assert!(bearer_allows(false, Some("Bearer secret"), "secret"), "request should succeed");
}

#[test]
fn access_loader_collects_the_subtree_breadth_first() {
    let mut loader = AccessLoader::start("a".to_string());
    assert_eq!(loader.next_directory(), Some("a".to_string()));
    loader.visit(&vec!["b".to_string(), "c".to_string()], &vec!["n1".to_string()]);
    assert_eq!(loader.next_directory(), Some("b".to_string()));
    loader.visit(&vec!["c".to_string()], &vec![]);
    assert_eq!(loader.next_directory(), Some("c".to_string()));
    loader.visit(&vec![], &vec!["n2".to_string()]);
    assert_eq!(loader.next_directory(), None);
    let access = loader.finish();
    assert_eq!(access.allowed_root(), "a");
    for id in ["a", "b", "c"] {
        assert!(access.has_directory(&id.to_string()));
    }
    assert!(access.has_note(&"n1".to_string()));
    assert!(access.has_note(&"n2".to_string()));
    assert!(!access.has_directory(&"n1".to_string()));
}

#[test]
fn removal_collector_lists_directories_in_order() {
    let mut collector = RemovalCollector::start("d".to_string());
    assert_eq!(collector.next_directory(), Some("d".to_string()));
    collector.visit(&vec!["e".to_string()], &vec!["n".to_string()]);
    assert_eq!(collector.next_directory(), Some("e".to_string()));
    collector.visit(&vec![], &vec!["m".to_string()]);
    assert_eq!(collector.next_directory(), None);
    let plan = collector.finish();
    assert_eq!(plan.directories, vec!["d".to_string(), "e".to_string()]);
    assert_eq!(plan.notes, vec!["n".to_string(), "m".to_string()]);
}

#[test]
fn root_and_note_tools_flow() {
    let mut server = Server::new(Store::new(), None);
    let root_id = expect_id(server.handle(ProxyRequest::RootId));

    let add = AddNote { directory_id: root_id.clone(), name: "Test".into() };
    let note = expect_note(server.handle(add.request()));
    assert_eq!(note.name, "Test");

    let list = ListNotes { directory_id: root_id.clone() };
    let notes = match server.handle(list.request()) {
        ProxyResponse::Success(ResultPayload::Notes(notes)) => notes,
        other => panic!("expected notes, got {other:?}"),
    };
    assert_eq!(notes.len(), 1);
    assert_eq!(notes[0].id, note.id);

    let get = GetNote { note_id: note.id.clone() };
    let content = match server.handle(get.request()) {
        ProxyResponse::Success(ResultPayload::Text(text)) => text,
        other => panic!("expected text, got {other:?}"),
    };
    assert!(content.is_empty());
}
