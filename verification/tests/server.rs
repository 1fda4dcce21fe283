use leptos_language_server::text_document::ChangeEvent;
use leptos_language_server::text_document::Position;
use leptos_language_server::text_document::Range;
use leptos_language_server::update_text_document;
use leptos_language_server::DidChangeParams;
use leptos_language_server::DidOpenParams;
use leptos_language_server::DocumentError;
use leptos_language_server::LanguageServer;
use leptos_language_server::NotificationHandler;

fn open(server: &mut LanguageServer, path: &str, text: &str) {
    NotificationHandler::<DidOpenParams>::handle(
        server,
        DidOpenParams {
            path: path.to_string(),
            uri: format!("file://{}", path),
            language_id: "rust".to_string(),
            version: 0,
            text: text.to_string(),
        },
    )
    .unwrap();
}

fn insertion(line: u32, character: u32, text: &str) -> ChangeEvent {
    ChangeEvent {
        range: Some(Range {
            start: Position { line, character },
            end: Position { line, character },
        }),
        text: text.to_string(),
    }
}

#[test]
fn test_change_through_handler() {
    let mut server = LanguageServer::new();
    open(&mut server, "/test.rs", "this is\na\npiece of text");
    NotificationHandler::<DidChangeParams>::handle(
        &mut server,
        DidChangeParams {
            path: "/test.rs".to_string(),
            content_changes: vec![insertion(1, 1, " nice")],
        },
    )
    .unwrap();
    let doc = server.get_text_document(&"/test.rs".to_string()).unwrap();
    assert_eq!(doc.get_text(), "this is\na nice\npiece of text");
}

#[test]
fn test_change_for_unopened_document() {
    let mut server = LanguageServer::new();
    let r = update_text_document(
        &mut server,
        &"/never-opened.rs".to_string(),
        &vec![insertion(0, 0, "x")],
    );
    match r {
        Err(DocumentError::DocumentNotFound { path }) => assert_eq!(path, "/never-opened.rs"),
        _ => panic!("a change to an unopened document must be reported"),
    }
}

#[test]
fn test_snapshot_for_unopened_document() {
    let server = LanguageServer::new();
    let r = server.get_text_document(&"/missing".to_string());
    assert!(matches!(r, Err(DocumentError::DocumentNotFound { .. })));
}

#[test]
fn test_reopen_overwrites() {
    let mut server = LanguageServer::new();
    open(&mut server, "/a.rs", "first");
    open(&mut server, "/a.rs", "second");
    let doc = server.get_text_document(&"/a.rs".to_string()).unwrap();
    assert_eq!(doc.get_text(), "second");
}

#[test]
fn test_changes_to_one_key_leave_the_other() {
    let mut server = LanguageServer::new();
    open(&mut server, "/a.rs", "alpha");
    open(&mut server, "/b.rs", "beta");
    update_text_document(
        &mut server,
        &"/a.rs".to_string(),
        &vec![insertion(0, 5, " edited")],
    )
    .unwrap();
    let a = server.get_text_document(&"/a.rs".to_string()).unwrap();
    let b = server.get_text_document(&"/b.rs".to_string()).unwrap();
    assert_eq!(a.get_text(), "alpha edited");
    assert_eq!(b.get_text(), "beta");
}

#[test]
fn test_batch_applies_in_order_and_stops_at_error() {
    let mut server = LanguageServer::new();
    open(&mut server, "/a.rs", "ab");
    let r = update_text_document(
        &mut server,
        &"/a.rs".to_string(),
        &vec![
            insertion(0, 2, "c"),
            insertion(9, 0, "never"),
            insertion(0, 0, "unreached"),
        ],
    );
    assert!(matches!(r, Err(DocumentError::CoordinateOutOfRange)));
    let doc = server.get_text_document(&"/a.rs".to_string()).unwrap();
    assert_eq!(doc.get_text(), "abc");
}

#[test]
fn test_snapshot_is_a_copy() {
    let mut server = LanguageServer::new();
    open(&mut server, "/a.rs", "before");
    let snapshot = server.get_text_document(&"/a.rs".to_string()).unwrap();
    update_text_document(
        &mut server,
        &"/a.rs".to_string(),
        &vec![ChangeEvent { range: None, text: "after".to_string() }],
    )
    .unwrap();
    assert_eq!(snapshot.get_text(), "before");
    let fresh = server.get_text_document(&"/a.rs".to_string()).unwrap();
    assert_eq!(fresh.get_text(), "after");
}
