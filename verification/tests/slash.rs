use rsi_terminal::editor::Editor;
use rsi_terminal::keys::{KeyCode, KeyEvent, MouseEvent, MouseKind};
use rsi_terminal::scene::{Area, Shown};
use rsi_terminal::setup::{command, Command};
use rsi_terminal::slash::{
    build_catalog, catalog_entry, literal, reserved, visible_session_command, Completion, Entry,
    Group, Skill, BUILTINS,
};
use rsi_terminal::slash_ui::{typed_query, Context, Reads, Ui};

fn plain(code: KeyCode) -> KeyEvent {
    KeyEvent::plain(code)
}

fn session() -> Option<String> {
    Some("session".to_owned())
}

fn skill(name: &str, replacement: &str) -> Entry {
    Entry {
        name: name.to_owned(),
        description: "Review a change".to_owned(),
        application: false,
        skill: Some(Skill { agent: false, replacement: replacement.to_owned(), resource: Some(7) }),
    }
}

fn rank(name: &str, query: &str) -> Option<u8> {
    if name == query {
        Some(0)
    } else if name.starts_with(query) {
        Some(1)
    } else if name.contains(query) {
        Some(2)
    } else {
        None
    }
}

fn context(ui: &Ui, editor: &Editor, dollar: Option<(usize, usize)>) -> Context {
    let mut context = Context { dollar, agent: None, ranks: Vec::new() };
    let query = typed_query(editor.text(), editor.cursor(), &context).unwrap_or_default();
    context.ranks = ui
        .candidates_for(editor.text(), editor.cursor(), &context)
        .iter()
        .map(|entry| rank(&entry.name, &query))
        .collect();
    context
}

fn follow(ui: &mut Ui, editor: &Editor) -> Reads {
    let context = context(ui, editor, None);
    ui.update(editor, session(), context)
}

fn alone(ui: &mut Ui, editor: &Editor) {
    let context = context(ui, editor, None);
    ui.update(editor, None, context);
}

/// A list over a session that offers entries.
fn over(entries: Vec<Entry>) -> Ui {
    let mut ui = Ui::default();
    let editor = Editor::with_text("/".to_owned(), 1024);
    let generation = follow(&mut ui, &editor).catalog.unwrap();
    let ranks = (0..BUILTINS + entries.len()).map(|_| Some(1)).collect();
    ui.loaded(generation, Ok((entries, String::new())), ranks);
    ui
}

fn choose_line(ui: &mut Ui, editor: &mut Editor, name: &str) {
    let popup = ui.popup().unwrap();
    let wanted = popup.items.iter().position(|item| item.0 == name).unwrap();
    while ui.popup().unwrap().selected != wanted {
        assert!(ui.key(plain(KeyCode::Down), editor));
    }
}

#[test]
fn dollar_completion_is_cursor_local_and_preserves_multiline_text_and_undo() {
    let mut ui = over(vec![skill("review", "/review"), skill("model", "/skill model")]);
    let original = "first line\n请用 $rev suffix";
    let mut editor = Editor::with_text(original.to_owned(), 1024);
    for _ in 0.." suffix".chars().count() {
        editor.key(plain(KeyCode::Left)).unwrap();
    }
    let cursor = editor.cursor();
    let start = original.find('$').unwrap();
    let marked = context(&ui, &editor, Some((start, start + 4)));
    ui.update(&editor, session(), marked);
    assert_eq!(ui.popup().unwrap().items.len(), 1);
    assert!(ui.key(plain(KeyCode::Tab), &mut editor));
    assert_eq!(editor.text(), "first line\n请用 $review suffix");
    editor.key(KeyEvent::control(KeyCode::Char('z'))).unwrap();
    assert_eq!(editor.text(), original);
    assert_eq!(editor.cursor(), cursor);
    for text in ["`$rev`", "\\$rev", "[label](https://host/$rev)"] {
        let editor = Editor::with_text(text.to_owned(), 1024);
        follow(&mut ui, &editor);
        assert!(ui.popup().is_none());
    }
}

#[test]
fn skill_preview_escape_and_collision_insert_preserve_the_draft_and_cursor() {
    let mut ui = over(vec![skill("model", "/skill model")]);
    let mut editor = Editor::with_text("/mod 参数".to_owned(), 1024);
    editor.key(plain(KeyCode::Home)).unwrap();
    for _ in 0..4 {
        editor.key(plain(KeyCode::Right)).unwrap();
    }
    follow(&mut ui, &editor);
    let named = |item: &&(String, String)| item.0 == "/model" || item.0 == "/skill model";
    assert_eq!(ui.popup().unwrap().items.iter().filter(named).count(), 2);
    choose_line(&mut ui, &mut editor, "/skill model");
    assert!(ui.key(plain(KeyCode::Function(2)), &mut editor));
    assert_eq!(ui.scene().title, "RSI · Skill · page 1");
    assert_eq!(editor.text(), "/mod 参数");
    assert_eq!(follow(&mut ui, &editor).preview.unwrap().1, 7);
    assert!(ui.key(plain(KeyCode::Escape), &mut editor));
    assert!(!ui.helping());
    assert!(follow(&mut ui, &editor).preview.is_none());
    assert_eq!(editor.cursor(), 4);
    choose_line(&mut ui, &mut editor, "/skill model");
    assert!(ui.key(plain(KeyCode::Tab), &mut editor));
    assert_eq!(editor.text(), "/skill model 参数");
    assert_eq!(editor.cursor(), "/skill model".len());
}

fn large() -> Completion {
    Completion {
        name: "large".to_owned(),
        description: "x".repeat(40 * 1024),
        replacement: "/large".to_owned(),
        group: Group::Skill,
        resource: None,
        encoded: Some(40 * 1024 + 64),
    }
}

#[test]
fn skill_display_budget_and_filter_clones_keep_payload_ownership_bounded() {
    let mut remaining = 64 * 1024 - 1024;
    assert!(catalog_entry(large(), &mut remaining).is_none());
    assert_eq!(remaining, 64 * 1024 - 1024);
    let retained = skill("guide", "/guide");
    let clone = retained.clone();
    assert_eq!(retained.description, clone.description);
    assert_eq!(retained.skill.unwrap().replacement, clone.skill.unwrap().replacement);
}

#[test]
fn the_catalog_says_what_it_left_out() {
    let small = Completion {
        name: "guide".to_owned(),
        description: "Guide".to_owned(),
        replacement: "/guide".to_owned(),
        group: Group::Agent,
        resource: None,
        encoded: Some(64),
    };
    let (entries, notice) = build_catalog(vec![large(), small], String::new());
    assert_eq!(entries.len(), 1);
    assert_eq!(entries[0].description, "Agent · Guide");
    assert!(!notice.is_empty());
}

#[test]
fn empty_query_starts_with_help_and_the_exit_alias_remains_searchable() {
    let mut ui = Ui::default();
    let editor = Editor::with_text("/".to_owned(), 1024);
    alone(&mut ui, &editor);
    let popup = ui.popup().unwrap();
    assert_eq!(popup.items[popup.selected].0, "/help");
    assert!(popup.items.iter().all(|item| item.0 != "/exit"));
    let mut editor = Editor::with_text("/ex".to_owned(), 1024);
    alone(&mut ui, &editor);
    assert!(!ui.key(plain(KeyCode::Enter), &mut editor));
    assert_eq!(editor.text(), "/exit");
    assert!(matches!(command(editor.text(), true), Some(Command::Quit)));
}

#[test]
fn late_catalog_results_cannot_replace_reopened_or_invalidated_popups() {
    let mut ui = Ui::default();
    let editor = Editor::with_text("/".to_owned(), 1024);
    let old = follow(&mut ui, &editor).catalog.unwrap();
    ui.invalidate();
    ui.invalidate();
    assert!(follow(&mut ui, &editor).catalog.is_none());
    assert!(ui.loading());
    assert!(ui.refreshing());
    let stale = Entry {
        name: "old-session-command".to_owned(),
        description: "obsolete".to_owned(),
        application: false,
        skill: None,
    };
    ui.loaded(old, Ok((vec![stale], String::new())), vec![Some(1); BUILTINS + 1]);
    assert_eq!(ui.candidates().len(), BUILTINS);
    assert!(ui.refreshing());
    assert!(!ui.loading());
    let generation = follow(&mut ui, &editor).catalog.unwrap();
    ui.loaded(generation, Err("read denied".to_owned()), vec![Some(1); BUILTINS]);
    assert!(ui.diagnostic().contains("read denied"));
    let popup = ui.popup().unwrap();
    assert_eq!(popup.items.len(), BUILTINS - 1);
    assert!(!popup.items.iter().any(|item| item.0.contains("old-session")));
}

#[test]
fn advisory_notice_does_not_refetch_after_each_keystroke_but_errors_retry() {
    let mut ui = Ui::default();
    let editor = Editor::with_text("/".to_owned(), 1024);
    let generation = follow(&mut ui, &editor).catalog.unwrap();
    let notice = "Skills unavailable; refresh when ready".to_owned();
    ui.loaded(generation, Ok((Vec::new(), notice)), vec![Some(1); BUILTINS]);
    let editor = Editor::with_text("/h".to_owned(), 1024);
    assert!(follow(&mut ui, &editor).catalog.is_none());
    assert_eq!(ui.generation(), generation, "an advisory response is a successful catalog");
    assert!(!ui.refreshing());
    ui.loaded(generation, Err("read denied".to_owned()), vec![Some(1); BUILTINS]);
    let editor = Editor::with_text("/he".to_owned(), 1024);
    assert!(follow(&mut ui, &editor).catalog.is_some());
    assert!(ui.generation() > generation);
}

#[test]
fn failed_help_refresh_clamps_selection_to_remaining_application_commands() {
    let mut ui = over((0..100).map(|n| skill(&format!("skill-{n}"), "/skill")).collect());
    let mut editor = Editor::default();
    ui.open_help();
    for _ in 0..100 {
        ui.key(plain(KeyCode::Down), &mut editor);
    }
    assert_eq!(ui.selected(), 100);
    let generation = follow(&mut ui, &editor).catalog.unwrap();
    ui.loaded(generation, Err("permission revoked".to_owned()), vec![Some(1); BUILTINS]);
    let scene = ui.scene();
    assert!(scene.selected < scene.items.len());
    assert_eq!(ui.selected(), BUILTINS - 1);
    assert!(ui.diagnostic().contains("permission revoked"));
}

#[test]
fn escape_before_discovery_and_tab_reopen_fence_the_old_request() {
    let mut ui = Ui::default();
    let mut editor = Editor::with_text("/unknown".to_owned(), 1024);
    let generation = follow(&mut ui, &editor).catalog.unwrap();
    assert!(ui.popup().is_none());
    assert!(ui.key(plain(KeyCode::Escape), &mut editor));
    follow(&mut ui, &editor);
    assert!(ui.key(plain(KeyCode::Tab), &mut editor));
    assert!(ui.refreshing());
    let stale = Entry {
        name: "unknown-old".to_owned(),
        description: "stale".to_owned(),
        application: false,
        skill: None,
    };
    ui.loaded(generation, Ok((vec![stale], String::new())), vec![Some(1); BUILTINS + 1]);
    assert_eq!(ui.candidates().len(), BUILTINS);
    assert!(ui.refreshing());
}

/// The help over a text that was previewed.
fn previewing(detail: String) -> (Ui, Editor) {
    let mut ui = over(vec![skill("review", "/review")]);
    let mut editor = Editor::with_text("/rev".to_owned(), 1024);
    follow(&mut ui, &editor);
    choose_line(&mut ui, &mut editor, "/review");
    assert!(ui.key(plain(KeyCode::Function(2)), &mut editor));
    let (generation, resource) = follow(&mut ui, &editor).preview.unwrap();
    assert_eq!(resource, 7);
    ui.previewed(generation, Ok(detail));
    (ui, editor)
}

#[test]
fn help_pages_bound_unicode_details_and_scroll_without_mutating_draft() {
    let (mut ui, mut editor) = previewing("界".repeat(10_000));
    ui.key(plain(KeyCode::PageDown), &mut editor);
    let scene = ui.scene();
    assert_eq!(scene.title, "RSI · Skill · page 2");
    assert!(scene.detail.unwrap().len() <= 8192);
    assert_eq!(editor.text(), "/rev");
}

fn shown(ui: &Ui, width: u16, height: u16) -> Shown {
    let area = Area { x: 0, y: 0, width, height };
    Shown {
        choice_revision: ui.scene().revision,
        area,
        choices_area: area,
        choices: Vec::new(),
        scroll_max: 0,
        completion: None,
    }
}

#[test]
fn detail_scroll_stops_at_the_last_wrapped_line() {
    let detail: String = (0..20)
        .map(|n| format!("line-{n:02} 界界界界界界界界界界界界界界界界界界\n"))
        .collect();
    let (mut ui, mut editor) = previewing(detail);
    for _ in 0..100 {
        ui.key(plain(KeyCode::Down), &mut editor);
    }
    let small = shown(&ui, 42, 8);
    ui.presented(&small);
    let last = ui.offset();
    assert!(last > 0);
    ui.key(plain(KeyCode::Down), &mut editor);
    assert_eq!(ui.offset(), last);
    ui.key(plain(KeyCode::Up), &mut editor);
    assert_eq!(ui.offset(), last - 1, "Up responds immediately at the bottom");
    let large = shown(&ui, 80, 40);
    ui.presented(&large);
    assert_eq!(ui.offset(), 0, "the complete text fits after enlargement");
    assert_eq!(editor.text(), "/rev");
}

#[test]
fn help_paste_preserves_composer_and_provider_completion_never_submits_on_tab() {
    let mut ui = Ui::default();
    let mut editor = Editor::with_text("/login d".to_owned(), 1024);
    alone(&mut ui, &editor);
    assert_eq!(ui.popup().unwrap().items[0].0, "deepseek");
    assert!(ui.key(plain(KeyCode::Tab), &mut editor));
    assert_eq!(editor.text(), "/login deepseek");
    ui.open_help();
    assert!(ui.paste("login"));
    assert_eq!(ui.help_entries().len(), 1);
    assert_eq!(editor.text(), "/login deepseek");
}

#[test]
fn live_completion_filters_preserves_suffix_and_escape_reopens() {
    let mut ui = Ui::default();
    let mut editor = Editor::with_text("/".to_owned(), 1024);
    alone(&mut ui, &editor);
    assert_eq!(ui.popup().unwrap().items.len(), BUILTINS - 1);
    editor.replace_text("/log deepseek").unwrap();
    for _ in 0..9 {
        editor.key(plain(KeyCode::Left)).unwrap();
    }
    alone(&mut ui, &editor);
    assert_eq!(ui.popup().unwrap().items[0].0, "/login");
    assert!(ui.key(plain(KeyCode::Tab), &mut editor));
    assert_eq!(editor.text(), "/login deepseek");
    alone(&mut ui, &editor);
    ui.key(plain(KeyCode::Escape), &mut editor);
    alone(&mut ui, &editor);
    assert!(ui.popup().is_none());
    editor.replace_text("//login").unwrap();
    alone(&mut ui, &editor);
    assert!(ui.popup().is_none());
    assert!(literal("/model\nnotes"));
    assert!(literal("//model"));
    assert!(!literal("/plan\nnotes"));
}

#[test]
fn the_pointer_selects_and_scrolls_only_what_is_shown() {
    let mut ui = Ui::default();
    ui.open_help();
    let mut old = shown(&ui, 42, 12);
    old.choice_revision += 1;
    let event = MouseEvent { kind: MouseKind::ScrollDown, column: 1, row: 1 };
    assert!(ui.mouse(event, &old));
    assert_eq!(ui.selected(), 0);
    let now = shown(&ui, 42, 12);
    assert!(ui.mouse(event, &now));
    assert_eq!(ui.selected(), 1);
}

#[test]
fn commands_of_the_application_are_reserved() {
    assert!(reserved("/model fast"));
    assert!(!reserved("/plan"));
    assert!(!reserved("model"));
    assert!(visible_session_command("plan"));
    assert!(!visible_session_command("model-selection"));
}
