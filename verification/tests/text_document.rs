use leptos_language_server::text_document::byte_index_to_position;
use leptos_language_server::text_document::position_to_byte_index;
use leptos_language_server::text_document::ChangeEvent;
use leptos_language_server::text_document::Position;
use leptos_language_server::text_document::Range;
use leptos_language_server::text_document::TextDocument;
use leptos_language_server::DocumentError;

#[test]
fn test_apply_insertion() {
    let mut text_document = TextDocument::new(
        0,
        "file:///test.rs".to_string(),
        "rust".to_string(),
        "this is\na\npiece of text",
    );

    let change = ChangeEvent {
        range: Some(Range {
            start: Position {
                line: 1,
                character: 1,
            },
            end: Position {
                line: 1,
                character: 1,
            },
        }),
        text: " nice".to_string(),
    };

    text_document.apply_change(&change).unwrap();
    assert_eq!(text_document.get_text(), "this is\na nice\npiece of text");
}

#[test]
fn test_apply_modification() {
    let mut text_document = TextDocument::new(
        0,
        "file:///test.rs".to_string(),
        "rust".to_string(),
        "this is\na\npiece of text",
    );

    let change = ChangeEvent {
        range: Some(Range {
            start: Position {
                line: 2,
                character: 9,
            },
            end: Position {
                line: 2,
                character: 13,
            },
        }),
        text: "cake".to_string(),
    };

    text_document.apply_change(&change).unwrap();
    assert_eq!(text_document.get_text(), "this is\na\npiece of cake");
}

#[test]
fn test_position_to_byte_index() {
    let text = "line 1\nline 2\nline 3";
    let rope = ropey::Rope::from(text);

    let byte_index = position_to_byte_index(
        &rope,
        Position {
            line: 1,
            character: 5,
        },
    )
    .unwrap();

    assert_eq!(byte_index, 12);
    assert_eq!(text.as_bytes()[byte_index], b'2');
}

#[test]
fn test_full_replace_without_range() {
    let mut doc = TextDocument::new(0, "file:///t".to_string(), "rust".to_string(), "old");
    let change = ChangeEvent {
        range: None,
        text: "new".to_string(),
    };
    doc.apply_change(&change).unwrap();
    assert_eq!(doc.get_text(), "new");
}

#[test]
fn test_round_trip_ascii() {
    let rope = ropey::Rope::from("line 1\nline 2\nline 3");
    let pos = byte_index_to_position(&rope, 12);
    assert_eq!(pos, Position { line: 1, character: 5 });
    assert_eq!(position_to_byte_index(&rope, pos).unwrap(), 12);
}

#[test]
fn test_round_trip_multibyte() {
    // 'a' (1 byte, 1 unit), 'e'+acute (2 bytes, 1 unit), a musical clef
    // outside the basic plane (4 bytes, 2 units), 'b', '\n', 'x'.
    let text = "a\u{e9}\u{1d11e}b\nx";
    let rope = ropey::Rope::from(text);
    let pos = byte_index_to_position(&rope, 7);
    assert_eq!(pos, Position { line: 0, character: 4 });
    assert_eq!(position_to_byte_index(&rope, pos).unwrap(), 7);
    let second_line = byte_index_to_position(&rope, 9);
    assert_eq!(second_line, Position { line: 1, character: 0 });
    assert_eq!(position_to_byte_index(&rope, second_line).unwrap(), 9);
}

#[test]
fn test_character_inside_surrogate_pair_floors() {
    // Unit 3 lands between the two units of the clef: the offset resolves
    // to the scalar the unit belongs to, at byte 3.
    let rope = ropey::Rope::from("a\u{e9}\u{1d11e}b\nx");
    let b = position_to_byte_index(&rope, Position { line: 0, character: 3 }).unwrap();
    assert_eq!(b, 3);
}

#[test]
fn test_position_line_out_of_range() {
    let rope = ropey::Rope::from("one\ntwo");
    let r = position_to_byte_index(&rope, Position { line: 2, character: 0 });
    assert!(matches!(r, Err(DocumentError::CoordinateOutOfRange)));
}

#[test]
fn test_position_character_out_of_range() {
    // Line 0 is "one\n": four units with its break; five is out of range.
    let rope = ropey::Rope::from("one\ntwo");
    let r = position_to_byte_index(&rope, Position { line: 0, character: 5 });
    assert!(matches!(r, Err(DocumentError::CoordinateOutOfRange)));
}

#[test]
fn test_apply_change_end_before_start() {
    let mut doc = TextDocument::new(0, "file:///t".to_string(), "rust".to_string(), "abc\ndef");
    let change = ChangeEvent {
        range: Some(Range {
            start: Position { line: 1, character: 2 },
            end: Position { line: 0, character: 1 },
        }),
        text: "x".to_string(),
    };
    let r = doc.apply_change(&change);
    assert!(matches!(r, Err(DocumentError::InvalidRange)));
    assert_eq!(doc.get_text(), "abc\ndef");
}

#[test]
fn test_apply_change_out_of_range_leaves_content() {
    let mut doc = TextDocument::new(0, "file:///t".to_string(), "rust".to_string(), "abc");
    let change = ChangeEvent {
        range: Some(Range {
            start: Position { line: 5, character: 0 },
            end: Position { line: 5, character: 0 },
        }),
        text: "x".to_string(),
    };
    let r = doc.apply_change(&change);
    assert!(matches!(r, Err(DocumentError::CoordinateOutOfRange)));
    assert_eq!(doc.get_text(), "abc");
}

#[test]
fn test_get_text_region() {
    let doc = TextDocument::new(0, "file:///t".to_string(), "rust".to_string(), "this is\na\npiece of text");
    let region = doc
        .get_text_region(
            Position { line: 2, character: 0 },
            Position { line: 2, character: 5 },
        )
        .unwrap();
    assert_eq!(region, "piece");
}

#[test]
fn test_get_text_region_invalid() {
    let doc = TextDocument::new(0, "file:///t".to_string(), "rust".to_string(), "abc");
    let r = doc.get_text_region(
        Position { line: 0, character: 2 },
        Position { line: 0, character: 1 },
    );
    assert!(matches!(r, Err(DocumentError::InvalidRange)));
    let r = doc.get_text_region(
        Position { line: 1, character: 0 },
        Position { line: 1, character: 0 },
    );
    assert!(matches!(r, Err(DocumentError::InvalidRange)));
}

#[test]
fn test_sequential_application_deterministic() {
    let changes = vec![
        ChangeEvent {
            range: Some(Range {
                start: Position { line: 0, character: 0 },
                end: Position { line: 0, character: 1 },
            }),
            text: "H".to_string(),
        },
        ChangeEvent {
            range: Some(Range {
                start: Position { line: 0, character: 5 },
                end: Position { line: 0, character: 5 },
            }),
            text: ", there".to_string(),
        },
    ];
    let mut first = TextDocument::new(0, "file:///a".to_string(), "rust".to_string(), "hello");
    let mut second = TextDocument::new(7, "file:///b".to_string(), "text".to_string(), "hello");
    for c in &changes {
        first.apply_change(c).unwrap();
    }
    for c in &changes {
        second.apply_change(c).unwrap();
    }
    assert_eq!(first.get_text(), "Hello, there");
    assert_eq!(second.get_text(), "Hello, there");
}

#[test]
fn test_version_and_initial_text_kept() {
    let doc = TextDocument::new(3, "file:///t".to_string(), "rust".to_string(), "kept\nverbatim");
    assert_eq!(doc.version(), 3);
    assert_eq!(doc.get_text(), "kept\nverbatim");
}
