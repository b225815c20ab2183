use rsi_terminal::actions::Action;
use rsi_terminal::answers::{answered_told, settled_told};
use rsi_terminal::arguments::{stdin_told, Argument, ArgumentError, Kind, Refusals, StdinError, HELP};
use rsi_terminal::client::{
    attention_told, opening_failed, switched_told, unobserved_told, OpenStep,
};
use rsi_terminal::devices;
use rsi_terminal::drafts::{blank_draft, Drafts};
use rsi_terminal::editor::{Editor, MAX_RETAINED};
use rsi_terminal::errors::RsiError;
use rsi_terminal::external::unread_told;
use rsi_terminal::files::{file_picker, inserted_told, picked, FilePage, Inserted, Picked};
use rsi_terminal::headless::check_workspace;
use rsi_terminal::history_search::{history_request, search_history};
use rsi_terminal::home::{Home, HomeKey};
use rsi_terminal::images::{refusal, ImageError};
use rsi_terminal::inspector;
use rsi_terminal::job_preview::{jobs_request, jobs_shown, Jobs, STREAM_BYTES};
use rsi_terminal::keys::{KeyCode, KeyEvent};
use rsi_terminal::line_client::{find_question, take_input, Incoming};
use rsi_terminal::native_addons;
use rsi_terminal::plugins::plugins_request;
use rsi_terminal::presentation::{timed_out, Owner, Started, PORTABLE_RENDER_SECONDS};
use rsi_terminal::prompts::{completions_told, Completions};
use rsi_terminal::references::{add_told, AddError, Reference, References, Step};
use rsi_terminal::request_details::{show_manifest, Content, Recorded};
use rsi_terminal::retention::FoldBudget;
use rsi_terminal::session_command;
use rsi_terminal::slash_ui::{resource_text, Resource, Ui};
use rsi_terminal::stdin::SessionInput;
use rsi_terminal::surfaces::{Offered, SurfacePart, TerminalSurfaces, MAXIMUM_SURFACES};

fn reference(id: u64, size: usize) -> Reference {
    Reference {
        id,
        snapshot: id,
        source: "source".to_owned(),
        through: 1,
        first: 1,
        last: 2,
        text_bytes: 10,
        omissions: None,
        size,
    }
}

#[test]
fn actions_on_references_are_decided_in_one_place() {
    let mut references = References::new();
    assert!(references.add_reference(reference(7, 100), true, true, true, 0).is_ok());
    assert!(matches!(
        references.reference_action(Action::References),
        Step::Menu(menu) if menu.title == "Draft references" && menu.items.len() == 2
    ));
    assert!(matches!(
        references.reference_action(Action::ReferenceSources(Some(3))),
        Step::Sources { after: Some(3), limit: 16 }
    ));
    assert!(matches!(
        references.reference_action(Action::CaptureReference(9)),
        Step::Capture { source: 9, offset: 0, bytes: 8192, opened: "Capturing conversation…" }
    ));
    assert!(matches!(
        references.reference_action(Action::PreviewReference { reference: 7, offset: 8192 }),
        Step::Preview {
            reference: 7,
            offset: 8192,
            bytes: 8192,
            opened: "Reading frozen reference…",
        }
    ));
    assert!(matches!(references.reference_action(Action::AddReference(8)), Step::Add(8)));
    assert!(matches!(references.reference_action(Action::Exit), Step::Other));
    assert!(matches!(
        references.reference_action(Action::RemoveReference(7)),
        Step::Removed("Reference removed from draft")
    ));
    assert_eq!(references.len(), 0);
}

#[test]
fn every_refused_reference_is_explained() {
    assert_eq!(
        add_told(Ok(()), ""),
        ("Frozen reference added; draft retained".to_owned(), true)
    );
    let told = |error| add_told(Err(error), "said").0;
    assert_eq!(told(AddError::Invalid), "said");
    assert_eq!(told(AddError::Refused), "said");
    assert_eq!(told(AddError::OtherTarget), "Reference belongs to a different target session");
    assert_eq!(told(AddError::Present), "Reference is already in this draft");
    assert_eq!(
        told(AddError::Full),
        "Draft retention is full; remove content before adding a reference"
    );
}

#[test]
fn drafts_and_references_share_one_pool() {
    let mut first = blank_draft(1);
    assert!(first.editor.insert(&"a".repeat(1000)).is_ok());
    let mut drafts = Drafts::new(1, first);
    let mut references = References::new();
    assert!(references.add_reference(reference(1, 700), true, true, true, 0).is_ok());
    assert_eq!(drafts.draft_reference_retention(&references), 700);
    let mut editor = Editor::default();
    drafts.limit_front(&references, &mut editor);
    assert!(editor.insert("b").is_ok());
    drafts.switch_session_draft(2, 1, 2);
    assert!(drafts.draft_reference_retention(&references) >= 1700);

    let mut full = References::new();
    assert!(full.add_reference(reference(2, 4194304), true, true, true, 0).is_ok());
    let mut editor = Editor::default();
    drafts.limit_front(&full, &mut editor);
    assert!(editor.insert("b").is_err());
    assert!(MAX_RETAINED < 4194304);
}

#[test]
fn the_picker_tells_what_it_does() {
    let mut editor = Editor::default();
    assert!(editor.insert("see @").is_ok());
    assert_eq!(
        file_picker(false, None, &editor),
        Err("Files are unavailable for this conversation")
    );
    assert_eq!(file_picker(true, None, &editor), Ok(((4, 5), "Reading workspace files…")));
    assert_eq!(file_picker(true, Some((0, 1)), &editor), Ok(((0, 1), "Reading workspace files…")));
    assert!(matches!(picked(None), Err("File picker closed")));
    let page = FilePage {
        page: 12,
        path: b"a".to_vec(),
        directory: false,
        entries: Vec::new(),
        offset: 0,
        next_offset: 0,
        total: 0,
        more: false,
        locator: "a".to_owned(),
        text: String::new(),
    };
    assert!(matches!(picked(Some(&page)), Ok(Picked::File(_))));
    assert_eq!(inserted_told(Inserted::NotNoted), "Reopen the file picker from this draft");
    assert_eq!(
        inserted_told(Inserted::CursorMoved),
        "Draft cursor changed; reopen the file picker"
    );
    assert_eq!(inserted_told(Inserted::Refused("why")), "why");
    assert_eq!(
        inserted_told(Inserted::Done),
        "File path inserted; file contents were not added"
    );
}

#[test]
fn running_commands_are_asked_for_by_turn() {
    assert_eq!(STREAM_BYTES, 16 * 1024);
    assert_eq!(jobs_request(None, Some(3)), Err("No command is running"));
    assert_eq!(jobs_request(Some(2), None), Ok(Jobs::First { turn: 2, limit: 32 }));
    assert_eq!(jobs_request(Some(2), Some(3)), Ok(Jobs::Next(3)));
    assert!(matches!(
        jobs_shown(&Vec::new(), None),
        Err("No live command output is available")
    ));
    assert!(matches!(jobs_shown(&Vec::new(), Some(4)), Ok(menu) if menu.items.len() == 1));
}

#[test]
fn searches_name_their_workspace() {
    let search = search_history("", 5, "needle".to_owned());
    assert_eq!(
        search.workspace,
        "e3b0c44298fc1c149afbf4c8996fb92427ae41e4649b934ca495991b7852b855"
    );
    assert_eq!((search.conversation, search.query.as_str(), search.after), (5, "needle", None));
    assert_eq!(history_request(true), Ok("Reading history owner…"));
    assert_eq!(history_request(false), Err("History text search is unavailable"));
    assert_eq!(plugins_request(true), Ok("Reading plugin status…"));
    assert_eq!(
        plugins_request(false),
        Err("Plugin status is unavailable on this connection")
    );
}

#[test]
fn manifests_are_shown_as_recorded() {
    assert_eq!(show_manifest(3, &Recorded::Missing), Err("Request source is unavailable"));
    assert_eq!(show_manifest(3, &Recorded::Other), Err("Source is not a model request"));
    assert_eq!(
        show_manifest(3, &Recorded::Unavailable("Evicted".to_owned())),
        Ok("Request evidence unavailable: Evicted".to_owned())
    );
    let content = Content { kind: "Text".to_owned(), count: 2, bytes: 9 };
    assert_eq!(
        show_manifest(3, &Recorded::Contents(vec![content])),
        Ok("Request 3 · ordinary content\nText: 2 items · 9 bytes".to_owned())
    );
}

#[test]
fn late_answers_are_told() {
    assert_eq!(answered_told(true, true), "");
    assert_eq!(answered_told(true, false), "Question is no longer live; reopen questions");
    assert_eq!(answered_told(false, false), "Approval is no longer live; reopen approvals");
    assert_eq!(settled_told(&vec![1], Some(1)), None);
    assert_eq!(settled_told(&vec![1], None), None);
    assert_eq!(
        settled_told(&vec![1], Some(2)),
        Some("Question settled or withdrawn; answer draft closed")
    );
    assert_eq!(attention_told(&None), Some("Request is no longer pending"));
    assert_eq!(attention_told(&Some(Action::Question(1))), None);
    assert_eq!(switched_told(None), None);
    assert_eq!(switched_told(Some("Setup closed")), Some("Session changed. Setup closed".to_owned()));
    assert_eq!(unobserved_told("gone"), "Session observation failed: gone");
}

#[test]
fn completions_are_told() {
    assert_eq!(
        completions_told(&Completions::Unmatched),
        Some("No registered Session command matches this prefix")
    );
    assert_eq!(
        completions_told(&Completions::Many(Vec::new())),
        Some("Complete Session command")
    );
    assert_eq!(completions_told(&Completions::Stale), None);
}

#[test]
fn unreadable_lines_are_passed_over() {
    assert!(matches!(
        take_input(SessionInput::Line("a".to_owned())),
        Incoming::Line(line) if line == "a"
    ));
    assert!(matches!(
        take_input(SessionInput::TooLarge),
        Incoming::Skip("input line exceeds its byte limit")
    ));
    assert!(matches!(
        take_input(SessionInput::InvalidUtf8),
        Incoming::Skip("input line is not UTF-8")
    ));
    assert!(matches!(take_input(SessionInput::Eof), Incoming::End));
    assert!(matches!(
        take_input(SessionInput::Error("broken".to_owned())),
        Incoming::Fail(told) if told == "broken"
    ));
}

#[test]
fn questions_are_found_by_name() {
    let asked = vec!["a".to_owned(), "b".to_owned(), "b".to_owned()];
    assert_eq!(find_question(&asked, "b"), Ok(1));
    assert_eq!(find_question(&asked, "c"), Err("question is unavailable"));
}

#[test]
fn a_named_directory_must_be_that_of_the_conversation() {
    assert!(check_workspace(None, "/work").is_ok());
    assert!(check_workspace(Some(Some("/work")), "/work").is_ok());
    let refused = Err("--cwd does not match the durable Session workspace");
    assert_eq!(check_workspace(Some(Some("/other")), "/work"), refused);
    assert_eq!(check_workspace(Some(None), "/work"), refused);
}

#[test]
fn refused_arguments_are_explained_by_application() {
    let arguments =
        vec![Argument { text: Some("--nope".to_owned()), refused: Refusals::none() }];
    let unknown = ArgumentError::Unknown(0);
    assert_eq!(
        session_command::explain(&unknown, &arguments, ""),
        "unknown Session application argument `--nope`"
    );
    assert_eq!(unknown.explain(&arguments, ""), "unknown option `--nope`");
    assert_eq!(
        session_command::explain(&ArgumentError::ReadExclusive, &arguments, ""),
        "--list, --history and --resume are mutually exclusive"
    );
    let told = |error| match devices::explain(&error, "said") {
        RsiError::Boot(told) => told,
        other => panic!("{other:?}"),
    };
    assert_eq!(told(ArgumentError::NotUtf8(0)), "device arguments must be UTF-8");
    assert_eq!(told(ArgumentError::Refused(Kind::Device, 1)), "said");
    assert_eq!(told(ArgumentError::Form), devices::HELP);
    assert!(matches!(inspector::explain(), RsiError::Boot(told) if told == inspector::HELP));
    assert!(matches!(native_addons::explain(), RsiError::Boot(told) if told == native_addons::HELP));
    assert_eq!(stdin_told(StdinError::TooLarge), "stdin task exceeds the Agent text bound");
    assert_eq!(stdin_told(StdinError::NotUtf8), "stdin task is not UTF-8");
    assert!(HELP.starts_with("Session command options (headless):\n"));
    assert!(HELP.ends_with("[--agent-preset ID] [--trust-workspace]\n"));
}

#[test]
fn refused_images_are_explained() {
    let told = |error| match refusal(error, "cat.png", 33) {
        RsiError::Boot(told) => told
            .strip_suffix("\nUse rsi --profile headless --help for application options.")
            .unwrap()
            .to_owned(),
        other => panic!("{other:?}"),
    };
    assert_eq!(
        told(ImageError::Count),
        "one message may contain at most 32 images alongside its task"
    );
    assert_eq!(told(ImageError::Bytes), "input images exceed 67108864 aggregate bytes");
    assert_eq!(told(ImageError::Empty), "image `cat.png` is empty");
    assert_eq!(told(ImageError::NotAFile), "image `cat.png` is not a regular file");
}

#[test]
fn folds_are_given_up_only_as_needed() {
    let mut budget = FoldBudget { count: 4098, retained: 2000 };
    assert!(budget.is_over());
    assert_eq!(budget.drop_from(&vec![10, 20, 30], 64), 2);
    assert_eq!(budget, FoldBudget { count: 4096, retained: 1906 });
    budget.shrunk(8);
    assert_eq!(budget.retained, 1914);
    assert!(!budget.is_over());
    assert_eq!(budget.drop_from(&vec![10], 0), 0);
}

#[test]
fn keys_at_home_go_to_the_help_first() {
    let mut home = Home::new(String::new());
    let mut slash = Ui::default();
    let key = |code| KeyEvent::plain(code);
    assert_eq!(home.key(&mut slash, key(KeyCode::Char('x'))), HomeKey::Edit);
    assert_eq!(home.key(&mut slash, KeyEvent::control(KeyCode::Char('d'))), HomeKey::Quit);
    assert_eq!(home.key(&mut slash, KeyEvent::control(KeyCode::Char('c'))), HomeKey::Quit);
    slash.open_help();
    assert_eq!(home.key(&mut slash, key(KeyCode::Char('x'))), HomeKey::Slash);
    assert_eq!(home.key(&mut slash, key(KeyCode::Escape)), HomeKey::Slash);
    assert!(!slash.helping());
    home.starting();
    assert_eq!(home.status(), "Starting session… Draft retained.");
}

#[test]
fn renderers_are_started_and_closed() {
    let started = |custom, catalog, problem: Option<&str>, published| {
        Owner::start(Started { custom, catalog, problem: problem.map(str::to_owned), published })
    };
    assert_eq!(
        started(true, false, None, true),
        Err("custom terminal presentation requires the application's catalog source".to_owned())
    );
    assert_eq!(started(false, false, Some("broken"), true), Err("broken".to_owned()));
    assert_eq!(
        started(true, true, None, false),
        Err("presentation Profile did not publish a renderer".to_owned())
    );
    let mut owner = started(false, false, None, true).unwrap();
    assert!(owner.renderer() && owner.render().is_ok());
    owner.changed(false);
    assert_eq!(owner.render(), Err("terminal presentation renderer unavailable"));
    assert!(!owner.closed);
    assert_eq!(owner.close(false), Err("terminal presentation cleanup failed"));
    assert!(owner.closed);
    assert_eq!(owner.close(true), Ok(()));
    assert_eq!(
        timed_out(),
        format!("terminal rendering exceeded {PORTABLE_RENDER_SECONDS} seconds")
    );
}

#[test]
fn surfaces_are_started_and_closed() {
    let offered = Offered { ui: true, files: false };
    assert_eq!(
        TerminalSurfaces::start(offered, false, 2, true),
        Err("terminal Shell activation failed; 2 cleanup failures".to_owned())
    );
    assert_eq!(
        TerminalSurfaces::start(offered, true, 0, false),
        Err("terminal Shell is unavailable".to_owned())
    );
    let surfaces = TerminalSurfaces::start(offered, true, 0, true).unwrap();
    assert!(matches!(surfaces.open(false, true), Err("Session controller is unavailable")));
    assert!(matches!(surfaces.open(true, false), Err("terminal observation sink is unavailable")));
    let observer = surfaces.open(true, true).unwrap();
    assert_eq!(observer.parts.last(), Some(&SurfacePart::UiTarget));
    assert_eq!(
        observer.stop(false, 3),
        Err("terminal surface cleanup reported 3 failures".to_owned())
    );
    assert_eq!(surfaces.close(true, 0), Ok(()));
    assert_eq!(MAXIMUM_SURFACES, 2);
    assert_eq!(
        surfaces.close(false, 1),
        Err("terminal Shell cleanup reported 1 failures".to_owned())
    );
}

#[test]
fn openings_and_resources_are_told() {
    assert_eq!(opening_failed(OpenStep::Workspace, "x"), "Workspace selection failed: x");
    assert_eq!(opening_failed(OpenStep::Creation, "x"), "Session creation failed: x");
    assert_eq!(opening_failed(OpenStep::Header, "x"), "Session header read failed: x");
    assert_eq!(unread_told(None), None);
    assert_eq!(
        unread_told(Some("x")),
        Some("Conversation opened; read position was not confirmed: x".to_owned())
    );
    let resource = Resource {
        name: "skill".to_owned(),
        source: "project".to_owned(),
        text: "body".to_owned(),
    };
    assert_eq!(resource_text(Some(&resource)), Ok("skill\nproject\n\nbody".to_owned()));
    assert_eq!(resource_text(None), Err("Invalid resource preview"));
    assert_eq!(devices::NOT_DELIVERED, "device output delivery failed; reconcile with list");
    assert_eq!(inspector::NOT_DELIVERED, "Inspector output delivery failed; repeat the read");
    assert!(native_addons::NOT_DELIVERED.ends_with("before another explicit attempt"));
}
