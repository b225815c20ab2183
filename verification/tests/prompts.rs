use rsi_terminal::editor::Editor;
use rsi_terminal::prompts::{
    command_completions, complete_command, completion_told, insert_completion, recall_prompt,
    Completions, Prompts, MAXIMUM_BYTES, MAXIMUM_ENTRIES,
};

#[test]
fn session_local_history_keeps_exact_text_under_global_byte_and_entry_bounds() {
    let mut history = Prompts::default();
    history.remember("first", "  first\nline  ");
    history.remember("second", "another Session");
    history.remember("first", "  first\nline  ");
    assert_eq!(history.len(), 2);
    assert_eq!(history.entry(0).text, "  first\nline  ");
    for i in 0..200 {
        history.remember("first", &i.to_string());
    }
    assert_eq!(history.len(), MAXIMUM_ENTRIES);
    history.remember("second", &"x".repeat(MAXIMUM_BYTES));
    assert_eq!(history.len(), 1);
    assert_eq!(history.bytes(), MAXIMUM_BYTES);
    history.remember("first", "replacement");
    assert_eq!(history.len(), 1);
    assert_eq!(history.bytes(), "replacement".len());
}

#[test]
fn a_submitted_input_is_recalled_in_its_own_conversation() {
    let mut history = Prompts::default();
    history.remember("first", "one");
    let id = history.entry(0).id;
    assert_eq!(history.recall("first", id).as_deref(), Some("one"));
    assert_eq!(history.recall("second", id), None);
    history.remember("first", "   ");
    assert_eq!(history.len(), 1);
    let mut editor = Editor::default();
    recall_prompt(&history, &mut editor, "first", id);
    assert_eq!(editor.text(), "one");
}

#[test]
fn completion_inserts_only_into_what_was_typed() {
    let names = vec!["plan".to_owned(), "play".to_owned(), "quit".to_owned()];
    assert_eq!(complete_command("/pl", &names), vec!["plan".to_owned(), "play".to_owned()]);
    assert!(matches!(command_completions("/pl", "/other", 6, &names), Completions::Stale));
    assert!(matches!(command_completions("/pl", "/pl", 3, &Vec::new()), Completions::Unmatched));
    let mut editor = Editor::default();
    editor.insert("/pl").unwrap();
    let done = insert_completion(&mut editor, "/pl", "plan").unwrap();
    assert!(done.is_ok());
    assert_eq!(editor.text(), "/plan ");
    assert!(insert_completion(&mut editor, "/pl", "plan").is_none());
    assert!(!completion_told(Err("too large")).is_empty());
}

#[test]
fn the_numbers_of_inputs_ascend() {
    let mut history = Prompts::default();
    for i in 0..300 {
        history.remember(if i % 2 == 0 { "first" } else { "second" }, &i.to_string());
    }
    for i in 1..history.len() {
        assert!(history.entry(i - 1).id < history.entry(i).id);
    }
}
