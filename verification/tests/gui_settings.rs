use glues::gui::{
    recent_icon, Icon,
    directory_item_id, note_item_id, parse_tree_item_id, persist_successful_open, recent_from_config,
    selected_row_index, tree_item_for_node, visual_long_note_content, visual_recent_settings, BackendKind, OpenForm,
    PathTarget,
};
use glues::data::{Directory, Note};
use glues::settings::{path_title, proxy_title, settings_dir, settings_path, title_for_path, GuiSettings, RecentBackend, RecentWorkspace, MAX_RECENT_WORKSPACES};
use glues::tree::{TreeNode, TreeRow, TreeRowKind};
use glues::workspace::WorkspaceBackendConfig;

fn file(path: &str) -> RecentWorkspace {
    RecentWorkspace::File { path: path.to_string() }
}

#[test]
fn upsert_puts_newest_first_and_drops_duplicates() {
    let mut settings = GuiSettings::default();
    settings.upsert_recent(file("/a"));
    settings.upsert_recent(RecentWorkspace::Proxy { url: "http://host".to_string() });
    settings.upsert_recent(file("/a"));
    assert_eq!(settings.recent_workspaces, vec![file("/a"), RecentWorkspace::Proxy { url: "http://host".to_string() }]);
    assert_eq!(settings.last_backend, None);
}

#[test]
fn upsert_keeps_at_most_eight_workspaces() {
    let mut settings = GuiSettings::default();
    for i in 0..10 {
        settings.upsert_recent(file(&format!("/notes/{i}")));
    }
    assert_eq!(settings.recent_workspaces.len(), MAX_RECENT_WORKSPACES);
    assert_eq!(settings.recent_workspaces[0], file("/notes/9"));
    assert_eq!(settings.recent_workspaces[7], file("/notes/2"));
}

#[test]
fn mongo_workspaces_are_told_apart_by_database() {
    let mut settings = GuiSettings::default();
    let a = RecentWorkspace::Mongo { conn_str: "mongodb://x".to_string(), db_name: "a".to_string() };
    let b = RecentWorkspace::Mongo { conn_str: "mongodb://x".to_string(), db_name: "b".to_string() };
    settings.upsert_recent(a.clone());
    settings.upsert_recent(b.clone());
    assert_eq!(settings.recent_workspaces, vec![b.clone(), a.clone()]);
    assert_eq!(a.dedupe_key(), "mongo:mongodb://x:a");
}

#[test]
fn git_workspace_is_keyed_by_path_only() {
    let mut settings = GuiSettings::default();
    let first = RecentWorkspace::Git { path: "/repo".to_string(), remote: "origin".to_string(), branch: "main".to_string() };
    let second = RecentWorkspace::Git { path: "/repo".to_string(), remote: "up".to_string(), branch: "dev".to_string() };
    settings.upsert_recent(first);
    settings.upsert_recent(second.clone());
    assert_eq!(settings.recent_workspaces, vec![second]);
}

#[test]
fn first_recent_for_backend_picks_first_of_kind() {
    let settings = visual_recent_settings();
    assert_eq!(
        settings.first_recent_for_backend(RecentBackend::Redb),
        Some(&RecentWorkspace::Redb { path: "/Users/dev/Notes/archive.redb".to_string() })
    );
    assert_eq!(settings.first_recent_for_backend(RecentBackend::Mongo), None);
    assert_eq!(settings.first_recent_for_backend(RecentBackend::Memory), None);
}

#[test]
fn titles_and_subtitles() {
    assert_eq!(path_title("/Users/dev/Notes/glues-file"), "glues-file");
    assert_eq!(path_title("/"), "/");
    assert_eq!(proxy_title("https://notes.example.test/api"), "notes.example.test");
    assert_eq!(proxy_title("http://localhost:4000"), "localhost:4000");
    assert_eq!(proxy_title("https://"), "https://");
    assert_eq!(proxy_title("notes.local/x"), "notes.local");
    let git = RecentWorkspace::Git {
        path: "/Users/dev/Workspace/glues-notes".to_string(),
        remote: "origin".to_string(),
        branch: "main".to_string(),
    };
    assert_eq!(git.title(), "glues-notes");
    assert_eq!(git.subtitle(), "main - origin - /Users/dev/Workspace/glues-notes");
    assert_eq!(git.backend_label(), "Git");
    assert_eq!(git.backend(), RecentBackend::Git);
    let mongo = RecentWorkspace::Mongo { conn_str: "mongodb://db".to_string(), db_name: "notes".to_string() };
    assert_eq!(mongo.title(), "notes");
    assert_eq!(mongo.subtitle(), "mongodb://db");
    assert_eq!(file("/x/y.redb").dedupe_key(), "file:/x/y.redb");
    assert_eq!(RecentWorkspace::Redb { path: "/a".to_string() }.backend_label(), "redb");
}

#[test]
fn backend_kinds_round_trip_through_recent_backends() {
    for kind in [
        BackendKind::Memory,
        BackendKind::File,
        BackendKind::Redb,
        BackendKind::Git,
        BackendKind::Mongo,
        BackendKind::Proxy,
    ] {
        assert_eq!(BackendKind::from_recent_backend(kind.to_recent_backend()), kind);
    }
    assert_eq!(BackendKind::Redb.label(), "redb");
    assert_eq!(BackendKind::Proxy.key(), "proxy");
}

#[test]
fn form_reports_what_is_missing() {
    let mut form = OpenForm::blank(BackendKind::File);
    assert_eq!(form.backend_config(), Err("Choose a file storage folder".to_string()));
    assert!(!form.can_open_workspace());
    form.set_selected_path(PathTarget::FileDirectory, "   ".to_string());
    assert_eq!(form.backend_config(), Err("Choose a file storage folder".to_string()));
    form.set_selected_path(PathTarget::FileDirectory, "/notes".to_string());
    assert_eq!(form.backend_config(), Ok(WorkspaceBackendConfig::File { path: "/notes".to_string() }));
    assert_eq!(form.selected_path(PathTarget::FileDirectory), Some(&"/notes".to_string()));
    assert_eq!(form.selected_path(PathTarget::RedbFile), None);

    let mut mongo = OpenForm::blank(BackendKind::Mongo);
    assert_eq!(mongo.backend_config(), Err("Enter a Mongo connection string".to_string()));
    mongo.mongo_conn = "mongodb://db".to_string();
    assert_eq!(mongo.backend_config(), Err("Enter a Mongo database name".to_string()));
    mongo.mongo_db = "notes".to_string();
    assert!(mongo.can_open_workspace());

    let mut proxy = OpenForm::blank(BackendKind::Proxy);
    assert_eq!(proxy.backend_config(), Err("Enter a proxy URL".to_string()));
    proxy.proxy_url = "http://host".to_string();
    proxy.proxy_token = "  ".to_string();
    assert_eq!(
        proxy.backend_config(),
        Ok(WorkspaceBackendConfig::Proxy { url: "http://host".to_string(), auth_token: None })
    );
    proxy.proxy_token = "SECRET-REDACTED".to_string();
    assert_eq!(
        proxy.backend_config(),
        Ok(WorkspaceBackendConfig::Proxy {
            url: "http://host".to_string(),
            auth_token: Some("SECRET-REDACTED".to_string())
        })
    );
    assert_eq!(OpenForm::blank(BackendKind::Memory).backend_config(), Ok(WorkspaceBackendConfig::Memory));
    assert_eq!(OpenForm::blank(BackendKind::Redb).backend_config(), Err("Choose a redb file".to_string()));
    assert_eq!(OpenForm::blank(BackendKind::Git).backend_config(), Err("Choose a git storage folder".to_string()));
}

#[test]
fn new_form_restores_last_backend_and_its_recent_workspace() {
    let settings = visual_recent_settings();
    let form = OpenForm::new(&settings);
    assert_eq!(form.backend_kind, BackendKind::File);
    assert_eq!(form.file_path, Some("/Users/dev/Notes/glues-file".to_string()));

    let mut form = OpenForm::new(&GuiSettings::default());
    assert_eq!(form, OpenForm::blank(BackendKind::Memory));
    form.select_backend(BackendKind::Git, &settings);
    assert_eq!(form.git_path, Some("/Users/dev/Workspace/glues-notes".to_string()));
    assert_eq!(form.git_remote, "git@github.com:example/notes.git");
    assert_eq!(form.git_branch, "main");
    form.proxy_token = "old".to_string();
    form.select_backend(BackendKind::Proxy, &settings);
    assert_eq!(form.proxy_url, "https://notes.example.test");
    assert_eq!(form.proxy_token, "");
    form.select_backend(BackendKind::Mongo, &settings);
    assert_eq!(form.backend_kind, BackendKind::Mongo);
    assert_eq!(form.mongo_conn, "");
}

#[test]
fn successful_open_is_remembered_without_token() {
    let mut settings = GuiSettings::default();
    let config = WorkspaceBackendConfig::Proxy {
        url: "http://host".to_string(),
        auth_token: Some("SECRET-REDACTED".to_string()),
    };
    let recent = recent_from_config(&config);
    assert_eq!(recent, Some(RecentWorkspace::Proxy { url: "http://host".to_string() }));
    persist_successful_open(&mut settings, RecentBackend::Proxy, recent);
    assert_eq!(settings.last_backend, Some(RecentBackend::Proxy));
    assert_eq!(settings.recent_workspaces.len(), 1);
    assert_eq!(recent_from_config(&WorkspaceBackendConfig::Memory), None);
    persist_successful_open(&mut settings, RecentBackend::Memory, None);
    assert_eq!(settings.last_backend, Some(RecentBackend::Memory));
    assert_eq!(settings.recent_workspaces.len(), 1);
}

#[test]
fn tree_item_ids_round_trip() {
    assert_eq!(directory_item_id("abc"), "dir:abc");
    assert_eq!(note_item_id("abc"), "note:abc");
    assert_eq!(parse_tree_item_id("dir:abc"), Some((TreeRowKind::Directory, "abc".to_string())));
    assert_eq!(parse_tree_item_id("note:xyz"), Some((TreeRowKind::Note, "xyz".to_string())));
    assert_eq!(parse_tree_item_id("loading:abc"), None);
}

#[test]
fn tree_items_show_placeholder_until_loaded() {
    let root = TreeNode {
        directory: Directory { id: "r".to_string(), parent_id: "r".to_string(), name: "Notes".to_string() },
        directories: vec![TreeNode::unloaded(Directory {
            id: "d".to_string(),
            parent_id: "r".to_string(),
            name: "Child".to_string(),
        })],
        notes: vec![Note { id: "n".to_string(), directory_id: "r".to_string(), name: "Readme".to_string() }],
        expanded: true,
        loaded: true,
    };
    let item = tree_item_for_node(&root);
    assert_eq!(item.id, "dir:r");
    assert_eq!(item.label, "Notes");
    assert_eq!(item.children.len(), 2);
    assert_eq!(item.children[0].id, "dir:d");
    assert_eq!(item.children[0].children.len(), 1);
    assert_eq!(item.children[0].children[0].id, "loading:d");
    assert_eq!(item.children[0].children[0].label, "Loading...");
    assert!(item.children[0].children[0].disabled);
    assert_eq!(item.children[1].id, "note:n");
    assert_eq!(item.children[1].label, "Readme");
}

#[test]
fn selected_row_index_finds_first_selected() {
    let row = |name: &str, selected: bool| TreeRow {
        id: name.to_string(),
        depth: 0,
        kind: TreeRowKind::Note,
        name: name.to_string(),
        expanded: false,
        selected,
    };
    assert_eq!(selected_row_index(&vec![row("a", false), row("b", true), row("c", true)]), Some(1));
    assert_eq!(selected_row_index(&vec![row("a", false)]), None);
}

#[test]
fn visual_samples() {
    let content = visual_long_note_content();
    assert!(content.starts_with("# Long wrapping note\n\nThis viewer keeps"));
    assert!(content.ends_with("\n\nEnd of sample."));
    assert_eq!(content.lines().count(), 13);
    let settings = visual_recent_settings();
    assert_eq!(settings.recent_workspaces.len(), 4);
    assert_eq!(settings.recent_workspaces[3].title(), "notes.example.test");
}

#[test]
fn path_targets_describe_their_prompts() {
    assert_eq!(PathTarget::RedbFile.button_id(), "choose-redb-file");
    let options = PathTarget::GitDirectory.options();
    assert!(options.directories);
    assert!(!options.files);
    assert!(!options.multiple);
    let options = PathTarget::RedbFile.options();
    assert!(options.files);
    assert!(!options.directories);
}

#[test]
fn recent_workspace_reopens_as_itself() {
    let settings = visual_recent_settings();
    for recent in settings.recent_workspaces.iter() {
        let mut form = OpenForm::blank(BackendKind::Memory);
        form.apply_recent_workspace(recent);
        let config = form.backend_config().expect("a complete recent workspace opens");
        assert_eq!(recent_from_config(&config).as_ref(), Some(recent));
    }
    let mut form = OpenForm::blank(BackendKind::Memory);
    form.apply_recent_workspace(&RecentWorkspace::Mongo { conn_str: "mongodb://db".to_string(), db_name: " ".to_string() });
    assert_eq!(form.backend_config(), Err("Enter a Mongo database name".to_string()));
}

#[test]
fn icons_follow_the_kind() {
    assert_eq!(PathTarget::FileDirectory.icon(), Icon::FolderOpen);
    assert_eq!(PathTarget::RedbFile.icon(), Icon::File);
    let settings = visual_recent_settings();
    let icons: Vec<Icon> = settings.recent_workspaces.iter().map(recent_icon).collect();
    assert_eq!(icons, vec![Icon::FolderOpen, Icon::File, Icon::Github, Icon::Globe]);
    assert_eq!(
        recent_icon(&RecentWorkspace::Mongo { conn_str: "m".to_string(), db_name: "d".to_string() }),
        Icon::Building2
    );
}

#[test]
fn title_for_path_prefers_a_non_empty_name() {
    assert_eq!(title_for_path("/a/b", Some("b".to_string())), "b");
    assert_eq!(title_for_path("/", None), "/");
    assert_eq!(title_for_path("x", Some(String::new())), "x");
    assert_eq!(path_title("notes/archive.redb"), "archive.redb");
    assert_eq!(path_title("/a/b.txt"), "b.txt");
    assert_eq!(file("/a/b.txt").title(), "b.txt");
}

#[test]
fn settings_live_in_the_configured_or_conventional_directory() {
    let some = |s: &str| Some(s.to_string());
    assert_eq!(settings_path(some("/cfg"), some("/home/u"), None, false, None), vec!["/cfg", "gui-settings.json"]);
    assert_eq!(settings_dir(None, some("/home/u"), some("/cwd"), false, None), vec!["/home/u", ".config", "glues"]);
    assert_eq!(settings_dir(None, None, some("/cwd"), false, some("/xdg")), vec!["/xdg", "glues"]);
    assert_eq!(
        settings_dir(None, None, some("/cwd"), true, some("/xdg")),
        vec!["/cwd", "Library", "Application Support", "Glues"]
    );
    assert_eq!(settings_dir(None, None, None, false, None), vec![".", ".config", "glues"]);
}

#[test]
fn recent_keys_stay_distinct() {
    let mut settings = GuiSettings::default();
    for path in ["/a", "/b", "/a", "/c", "/b", "/a"] {
        settings.upsert_recent(file(path));
        let keys: Vec<String> = settings.recent_workspaces.iter().map(|w| w.dedupe_key()).collect();
        for i in 0..keys.len() {
            for j in i + 1..keys.len() {
                assert_ne!(keys[i], keys[j]);
            }
        }
    }
    assert_eq!(settings.recent_workspaces, vec![file("/a"), file("/b"), file("/c")]);
}
