use glues::ids::IdSet;
use glues::mcp::{AddNote, GetNote, ListNotes};
use glues::proxy::ProxyRequest;
use glues::text::{
    append, chars_of, decimal, is_blank, join_lines, lines, push, repeat, same_text, strip_prefix, string_from, trim,
};

#[test]
fn trim_drops_surrounding_whitespace() {
    assert_eq!(trim("  a b \t\n"), "a b");
    assert_eq!(trim("\u{3000}x\u{a0}"), "x");
    assert_eq!(trim("   "), "");
    assert!(is_blank(" \t "));
    assert!(!is_blank(" x "));
}

#[test]
fn lines_follow_std() {
    for text in ["", "a", "a\n", "a\r\nb", "a\n\nb\n", "\n", "x\r", "a\rb\n"] {
        let expected: Vec<String> = text.lines().map(|l| l.to_string()).collect();
        assert_eq!(lines(text), expected, "lines of {text:?}");
    }
}

#[test]
fn join_and_repeat() {
    assert_eq!(join_lines(&vec!["a".to_string(), "".to_string(), "b".to_string()]), "a\n\nb");
    assert_eq!(join_lines(&vec![]), "");
    assert_eq!(repeat("ab", 3), "ababab");
    assert_eq!(repeat("ab", 0), "");
}

#[test]
fn decimal_writes_numbers() {
    assert_eq!(decimal(0), "0");
    assert_eq!(decimal(7), "7");
    assert_eq!(decimal(1234567), "1234567");
    assert_eq!(decimal(usize::MAX), usize::MAX.to_string());
}

#[test]
fn string_helpers() {
    assert_eq!(strip_prefix("dir:abc", "dir:"), Some("abc".to_string()));
    assert_eq!(strip_prefix("di", "dir:"), None);
    let mut s = "ab".to_string();
    push(&mut s, 'é');
    append(&mut s, "cd");
    assert_eq!(s, "abécd");
    let v = chars_of("héllo");
    assert_eq!(v.len(), 5);
    assert_eq!(string_from(&v, 1, 4), "éll");
    assert!(same_text(&"x".to_string(), &"x".to_string()));
    assert!(!same_text(&"x".to_string(), &"y".to_string()));
}

#[test]
fn id_set_keeps_each_id_once() {
    let mut set = IdSet::new();
    assert!(set.insert("a".to_string()));
    assert!(!set.insert("a".to_string()));
    assert!(set.contains(&"a".to_string()));
    assert!(set.remove(&"a".to_string()));
    assert!(!set.remove(&"a".to_string()));
    assert!(!set.contains(&"a".to_string()));
}

#[test]
fn tools_make_their_store_requests() {
    assert_eq!(ListNotes::name(), "list_notes");
    assert_eq!(GetNote::name(), "get_note");
    assert_eq!(AddNote::name(), "add_note");
    assert_eq!(ListNotes::description(), "List notes in a directory");
    assert_eq!(GetNote::description(), "Fetch note content");
    assert_eq!(AddNote::description(), "Create a new note");
    let add = AddNote { directory_id: "root".to_string(), name: "Test".to_string() };
    assert_eq!(add.request(), ProxyRequest::AddNote { directory_id: "root".to_string(), name: "Test".to_string() });
    let list = ListNotes { directory_id: "root".to_string() };
    assert_eq!(list.request(), ProxyRequest::FetchNotes { directory_id: "root".to_string() });
    let get = GetNote { note_id: "n1".to_string() };
    assert_eq!(get.request(), ProxyRequest::FetchNoteContent { note_id: "n1".to_string() });
}
