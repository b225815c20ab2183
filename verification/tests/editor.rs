use rsi_terminal::editor::{left, Editor, MAX_TEXT};
use rsi_terminal::journal;
use rsi_terminal::keys::{KeyCode, KeyEvent};

fn plain(code: KeyCode) -> KeyEvent {
    KeyEvent::plain(code)
}

fn shortcut(code: char, control: bool, alt: bool, shift: bool) -> KeyEvent {
    KeyEvent { code: KeyCode::Char(code), control, alt, shift, release: false }
}

#[test]
fn undo_redo_preserves_atomic_paste_graphemes_and_new_branch() {
    let mut editor = Editor::default();
    let text = "界e\u{301}👩🏽‍💻\nnext";
    editor.insert(text).unwrap();
    editor.key(plain(KeyCode::Home)).unwrap();
    editor.key(plain(KeyCode::Backspace)).unwrap();
    assert_eq!(editor.text(), "界e\u{301}👩🏽‍💻next");
    editor.key(shortcut('z', true, false, false)).unwrap();
    assert_eq!(editor.text(), text);
    assert_eq!(editor.cursor(), text.len() - 4);
    editor.key(shortcut('z', true, false, false)).unwrap();
    assert_eq!(editor.text(), "");
    editor.key(shortcut('z', false, true, false)).unwrap();
    assert_eq!(editor.text(), text);
    editor.key(shortcut('z', true, false, true)).unwrap();
    assert_eq!(editor.text(), "界e\u{301}👩🏽‍💻next");
    editor.key(shortcut('z', true, false, false)).unwrap();
    editor.insert("new").unwrap();
    let branch = editor.text().to_owned();
    editor.key(shortcut('z', false, true, false)).unwrap();
    assert_eq!(editor.text(), branch);
}

#[test]
fn rejected_insert_preserves_undo_and_submission_clears_it() {
    let mut editor = Editor::default();
    editor.insert("first").unwrap();
    assert!(editor.insert("\0").is_err());
    assert!(editor.insert(&"x".repeat(MAX_TEXT)).is_err());
    editor.key(shortcut('z', true, false, false)).unwrap();
    assert!(editor.text().is_empty());
    editor.key(shortcut('z', false, true, false)).unwrap();
    assert_eq!(editor.take(), "first");
    editor.key(shortcut('z', true, false, false)).unwrap();
    editor.key(shortcut('z', false, true, false)).unwrap();
    assert!(editor.text().is_empty());
}

#[test]
fn journal_entry_byte_and_saved_draft_budgets_bound_both_directions() {
    let mut editor = Editor::default();
    for _ in 0..300 {
        editor.insert("x").unwrap();
    }
    assert_eq!(editor.undo_len(), journal::MAXIMUM_CHANGES);
    for _ in 0..400 {
        editor.travel(false);
    }
    assert_eq!(editor.text().len(), 300 - journal::MAXIMUM_CHANGES);
    assert_eq!(editor.redo_len(), journal::MAXIMUM_CHANGES);
    let limit = editor.text().len() + 16;
    editor.set_retention_limit(limit);
    assert!(editor.retained_bytes() <= editor.text().len() + 16);
    for _ in 0..400 {
        editor.travel(true);
    }
    assert!(editor.retained_bytes() <= 300 - journal::MAXIMUM_CHANGES + 16);

    let mut editor = Editor::default();
    for _ in 0..8 {
        editor.insert(&"a".repeat(MAX_TEXT / 4)).unwrap();
        editor.key(shortcut('u', true, false, false)).unwrap();
        assert!(editor.history_bytes() <= journal::MAXIMUM_BYTES);
        assert!(editor.retained_bytes() <= MAX_TEXT + journal::MAXIMUM_BYTES);
    }
    let mut second = Editor::default();
    second.set_retention_limit(2 * MAX_TEXT - editor.retained_bytes());
    second.insert(&"b".repeat(MAX_TEXT / 2)).unwrap();
    for _ in 0..8 {
        second.travel(false);
        assert!(editor.retained_bytes() + second.retained_bytes() <= 2 * MAX_TEXT);
        second.travel(true);
        assert!(editor.retained_bytes() + second.retained_bytes() <= 2 * MAX_TEXT);
    }
}

#[test]
fn inserting_a_combining_mark_undoes_to_exact_text_and_cursor() {
    let mut editor = Editor::default();
    editor.insert("e中").unwrap();
    editor.key(plain(KeyCode::Left)).unwrap();
    editor.insert("\u{301}").unwrap();
    assert_eq!(editor.cursor(), 3);
    editor.travel(false);
    assert_eq!((editor.text(), editor.cursor()), ("e中", 1));
    editor.travel(true);
    assert_eq!((editor.text(), editor.cursor()), ("e\u{301}中", 3));
}

#[test]
fn grapheme_editing_and_rejected_paste_preserve_draft() {
    let mut editor = Editor::default();
    editor.insert("界e\u{301}👩🏽‍💻").unwrap();
    editor.key(plain(KeyCode::Backspace)).unwrap();
    assert_eq!(editor.text(), "界e\u{301}");
    editor.key(plain(KeyCode::Backspace)).unwrap();
    assert_eq!(editor.text(), "界");
    assert!(editor.insert(&"a".repeat(MAX_TEXT)).is_err());
    assert_eq!(editor.text(), "界");
    assert!(editor.insert("\0").is_err());
    assert_eq!(editor.cursor(), 3);
}

#[test]
fn refused_texts_say_why() {
    let mut editor = Editor::default();
    assert_eq!(editor.insert("\u{7f}"), Err("Input contains NUL or DEL; nothing was inserted"));
    assert_eq!(
        editor.insert(&"x".repeat(MAX_TEXT + 1)),
        Err("Input exceeds its size limit; nothing was inserted")
    );
    editor.insert("a\r\nb\rc").unwrap();
    assert_eq!(editor.text(), "a\nb\nc");
}

#[test]
fn what_a_history_may_keep_is_what_the_text_leaves() {
    assert_eq!(left(100, 40), 60);
    assert_eq!(left(100, 100), 0);
    assert_eq!(left(100, 140), 0);
    let mut editor = Editor::default();
    editor.insert("one").unwrap();
    editor.key(plain(KeyCode::Backspace)).unwrap();
    editor.key(shortcut('z', true, false, false)).unwrap();
    assert_eq!(editor.text(), "one");
    assert!(editor.retained_bytes() >= 3);
}
