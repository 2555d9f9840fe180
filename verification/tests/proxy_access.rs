use glues::access::{apply_post_plan, GuardEvaluation, PostPlan, ProxyAccess};
use glues::data::{Directory, Note};
use glues::ids::IdSet;
use glues::proxy::{ProxyRequest, ProxyResponse, ResultPayload};
use glues::server::{bearer_allows, RequestStep, ServerState};

fn ids(items: &[&str]) -> IdSet {
    let mut set = IdSet::new();
    for item in items {
        set.insert(item.to_string());
    }
    set
}

fn sample_access() -> ProxyAccess {
    ProxyAccess::new(
        "allowed".to_string(),
        ids(&["allowed", "nested"]),
        ids(&["note"]),
    )
}

fn deny_message(evaluation: GuardEvaluation) -> String {
    match evaluation {
        GuardEvaluation::Deny { message } => message,
        other => panic!("expected a refusal, got {other:?}"),
    }
}

#[test]
fn root_id_returns_allowed_root() {
    let access = sample_access();
    match access.evaluate(&ProxyRequest::RootId) {
        GuardEvaluation::ReturnRoot { root } => assert_eq!(root, "allowed"),
        other => panic!("unexpected {other:?}"),
    }
}

#[test]
fn directory_outside_subtree_is_refused() {
    let access = sample_access();
    let message = deny_message(access.evaluate(&ProxyRequest::FetchDirectory {
        directory_id: "outside".to_string(),
    }));
    assert_eq!(message, "proxy: directory outside is outside the allowed subtree");
}

#[test]
fn note_outside_subtree_is_refused() {
    let access = sample_access();
    let message = deny_message(access.evaluate(&ProxyRequest::FetchNoteContent {
        note_id: "other".to_string(),
    }));
    assert_eq!(message, "proxy: note other is outside the allowed subtree");
}

#[test]
fn root_cannot_be_renamed_moved_or_removed() {
    let access = sample_access();
    let rename = deny_message(access.evaluate(&ProxyRequest::RenameDirectory {
        directory_id: "allowed".to_string(),
        name: "forbidden".to_string(),
    }));
    assert_eq!(rename, "proxy: renaming the allowed root directory is not permitted");
    let moved = deny_message(access.evaluate(&ProxyRequest::MoveDirectory {
        directory_id: "allowed".to_string(),
        parent_id: "nested".to_string(),
    }));
    assert_eq!(moved, "proxy: moving the allowed root directory is not permitted");
    let removed = deny_message(access.evaluate(&ProxyRequest::RemoveDirectory {
        directory_id: "allowed".to_string(),
    }));
    assert_eq!(removed, "proxy: modifying the allowed root directory is not permitted");
}

#[test]
fn removing_a_directory_asks_for_its_subtree() {
    let access = sample_access();
    match access.evaluate(&ProxyRequest::RemoveDirectory { directory_id: "nested".to_string() }) {
        GuardEvaluation::Allow { pending: Some(glues::access::PendingMutation::CollectRemoval { directory_id }) } => {
            assert_eq!(directory_id, "nested")
        }
        other => panic!("unexpected {other:?}"),
    }
}

#[test]
fn move_note_checks_note_then_directory() {
    let access = sample_access();
    let message = deny_message(access.evaluate(&ProxyRequest::MoveNote {
        note_id: "note".to_string(),
        directory_id: "outside".to_string(),
    }));
    assert_eq!(message, "proxy: directory outside is outside the allowed subtree");
    let message = deny_message(access.evaluate(&ProxyRequest::MoveNote {
        note_id: "missing".to_string(),
        directory_id: "outside".to_string(),
    }));
    assert_eq!(message, "proxy: note missing is outside the allowed subtree");
}

#[test]
fn added_directory_becomes_reachable() {
    let mut access = sample_access();
    let request = ProxyRequest::AddDirectory { parent_id: "allowed".to_string(), name: "child".to_string() };
    let plan = PostPlan::from_request(&request);
    let response = ProxyResponse::Success(ResultPayload::Directory(Directory {
        id: "child".to_string(),
        parent_id: "allowed".to_string(),
        name: "child".to_string(),
    }));
    apply_post_plan(&mut access, plan, &response);
    assert!(access.has_directory(&"child".to_string()));
    assert!(matches!(
        access.evaluate(&ProxyRequest::RenameDirectory { directory_id: "child".to_string(), name: "renamed".to_string() }),
        GuardEvaluation::Allow { pending: None }
    ));
}

#[test]
fn failed_add_changes_nothing() {
    let mut access = sample_access();
    let request = ProxyRequest::AddNote { directory_id: "allowed".to_string(), name: "n".to_string() };
    apply_post_plan(&mut access, PostPlan::from_request(&request), &ProxyResponse::Failure("boom".to_string()));
    assert!(!access.has_note(&"n".to_string()));
    let ok = ProxyResponse::Success(ResultPayload::Note(Note {
        id: "n".to_string(),
        directory_id: "allowed".to_string(),
        name: "n".to_string(),
    }));
    apply_post_plan(&mut access, PostPlan::from_request(&request), &ok);
    assert!(access.has_note(&"n".to_string()));
}

#[test]
fn bearer_check() {
    assert!(bearer_allows(true, None, "secret"));
    assert!(!bearer_allows(false, None, "secret"));
    assert!(bearer_allows(false, Some("Bearer secret"), "secret"));
    assert!(bearer_allows(false, Some("Bearer   secret  "), "secret"));
    assert!(!bearer_allows(false, Some("Basic secret"), "secret"));
    assert!(!bearer_allows(false, Some("Bearer other"), "secret"));
    assert!(!bearer_allows(false, Some("bearer secret"), "secret"));
}

#[test]
fn unguarded_server_forwards_everything() {
    let state = ServerState::new(None);
    match state.begin_request(&ProxyRequest::RootId) {
        RequestStep::Forward { post_plan: PostPlan::Nothing, collect_removal: None } => {}
        other => panic!("unexpected {other:?}"),
    }
}
