use rsi_terminal::arguments::{Argument, ArgumentError, Refusals};
use rsi_terminal::document::{ending, framed, Delivered};
use rsi_terminal::errors::{error, failure, first, session_error, RsiError};
use rsi_terminal::export::{destination, latest, Destination, Error, Latest, Row};
use rsi_terminal::external::{
    attention, catalog, controls, find_draft, put_draft, show_source, tail, transcript,
    trim_drafts, Block, Choice as ExternalChoice, Control, Conversation, Endpoint, Position, Saved,
};
use rsi_terminal::external_ui::{Event, Request, Ui as ExternalUi};
use rsi_terminal::home::{
    needs_setup, startup, DefaultModel, HandleError, Home, HomeKey, HomeStep, ModelScan, Scan,
    Startup,
};
use rsi_terminal::keys::{KeyCode, KeyEvent};
use rsi_terminal::plugin::{
    requirements, Entry, Factory, Kind, Prepared, Refusal, Requirement, RunError, Surroundings,
    TerminalLease, DIAGNOSTIC_BYTES,
};
use rsi_terminal::presentation::{
    check_request, fragments, timed_out, FrameBytes, FrameRendererContract,
    LinkedPresentationFactory, PortablePresentationFactory,
};
use rsi_terminal::profiles::{
    browse, leaf, review, Catalog, ChangeKind, Choice, Command, Leaf, LeafView, Named, Preview,
    Target,
};
use rsi_terminal::profiles_ui::Ui as ProfilesUi;
use rsi_terminal::setup::ModelRef;
use rsi_terminal::text::is_before;
use rsi_terminal::surfaces::{
    activation_failed, cleanup_failed, missing_part, surface_parts, used, SurfacePart,
};

fn model(name: &str) -> ModelRef {
    ModelRef { deployment: "test".to_owned(), model: name.to_owned() }
}

#[test]
fn setup_removed_between_catalog_check_and_create_returns_home_only_for_fresh_sessions() {
    assert!(needs_setup(&DefaultModel::Model(model("00000")), &Ok(true)).is_none());
    let removed = || Err(HandleError::SetupRequired("corrupt settings".to_owned()));
    let Startup::Home(told) = startup(false, None, removed()) else {
        panic!("SetupRequired after preflight must keep the application open")
    };
    assert!(told.contains("/login"));
    assert!(told.contains("/model"));
    assert!(matches!(startup(true, None, removed()), Startup::Fail(_)));
    assert!(matches!(
        startup(true, Some("resume skips current defaults and catalog".to_owned()), Ok(())),
        Startup::Attach
    ));
}

#[test]
fn catalog_failure_or_bound_keeps_setup_reachable() {
    let absent = DefaultModel::Model(model("absent"));
    for problem in ["capacity", ModelScan::bound_problem()] {
        let reason = needs_setup(&absent, &Err(problem.to_owned())).unwrap();
        assert!(reason.contains(problem));
        assert!(reason.contains("/model"));
    }
    assert!(needs_setup(&absent, &Ok(false)).unwrap().contains("test/absent"));
    assert!(needs_setup(&DefaultModel::Missing, &Ok(false)).is_some());
}

#[test]
fn catalog_scan_accepts_exact_bound_and_stops_when_startup_route_is_found() {
    let page = |from: usize| -> Vec<ModelRef> {
        (from..from + 256).map(|i| model(&format!("{i:05}"))).collect()
    };
    let mut scan = ModelScan::new();
    for n in 0..16 {
        let last = scan.page(page(n * 256), n < 15, None);
        assert!(matches!(last, Scan::More) == (n < 15));
    }
    assert_eq!(scan.routes.len(), 4096);
    let mut scan = ModelScan::new();
    for n in 0..15 {
        assert!(matches!(scan.page(page(n * 256), true, None), Scan::More));
    }
    assert!(matches!(scan.page(page(15 * 256), true, None), Scan::Bound));
    let mut scan = ModelScan::new();
    assert!(matches!(scan.page(page(0), true, Some(&model("00000"))), Scan::Done));
}

#[test]
fn nothing_is_sent_without_a_conversation() {
    let mut home = Home::new("welcome".to_owned());
    home.paste("hello", false);
    assert!(matches!(home.submit(false), HomeStep::Nothing));
    assert_eq!(home.editor().text(), "hello");
    assert_ne!(home.status(), "welcome");
    let mut home = Home::new(String::new());
    home.paste("/login", false);
    assert!(matches!(home.submit(false), HomeStep::Setup(_)));
    assert_eq!(home.route(KeyEvent::control(KeyCode::Char('p')), false, false), HomeKey::Actions);
    home.open_actions();
    assert!(home.has_menu());
    assert!(home.menu_scene().is_some());
    home.close_menu();
    assert!(!home.has_menu());
}

fn target() -> Target {
    Target { handle: 1, profile: "default".to_owned(), leaf: "tools".to_owned() }
}

fn preview() -> Preview {
    Preview {
        ticket: 3,
        ticket_name: "ticket".to_owned(),
        digest: "digest".to_owned(),
        target: target(),
        plugin: "plugin".to_owned(),
        operation: ChangeKind::Disable,
        previous_enabled: true,
        enabled: false,
        effective_enabled: false,
    }
}

fn known() -> LeafView {
    LeafView {
        catalog: Some(Catalog {
            principal: "local".to_owned(),
            profiles: vec![Named { handle: 9, name: "default".to_owned() }],
            leaves: vec![Leaf {
                target: target(),
                plugin: "plugin".to_owned(),
                enabled: true,
                effective_enabled: true,
                allowed: vec![ChangeKind::Disable],
            }],
            next: None,
        }),
        profile: None,
        previews: vec![preview()],
        receipts: Vec::new(),
        receipt: None,
        can_grant: false,
        grants: None,
        notice: None,
    }
}

#[test]
fn only_granted_changes_are_offered() {
    let page = leaf(&known(), 1);
    assert!(page.items.iter().any(|item| matches!(
        item.1,
        Choice::Run(Command::Enabled { enabled: false, .. }, _)
    )));
    assert!(!page.items.iter().any(|item| matches!(item.1, Choice::Configuration(_))));
    assert!(!page.items.iter().any(|item| matches!(item.1, Choice::GrantKind(_))));
    assert!(browse(&known()).items.iter().any(|item| matches!(item.1, Choice::Leaf(1))));
    let reviewed = review(&known(), &preview());
    assert!(reviewed
        .items
        .iter()
        .any(|item| matches!(item.1, Choice::Run(Command::Commit { ticket: 3 }, _))));
}

#[test]
fn one_change_is_made_at_a_time() {
    let mut ui = ProfilesUi::new(true, known());
    assert!(ui.open().is_some());
    assert!(ui.working());
    assert!(ui.key(KeyEvent::plain(KeyCode::Enter), true).is_none());
    ui.next(known(), Err("denied".to_owned()));
    assert!(!ui.working());
    assert!(ui.active());
    assert!(ui.scene().status.contains("denied"));
    let mut absent = ProfilesUi::new(false, known());
    assert!(absent.open().is_none());
}

fn conversation() -> Conversation {
    Conversation {
        endpoint: "e".to_owned(),
        cwd: "/".to_owned(),
        status: "idle".to_owned(),
        connected: true,
        resume: false,
        load: false,
        permissions: Vec::new(),
        blocks: vec![Block {
            role: "user".to_owned(),
            key: "k".to_owned(),
            text: "hello".to_owned(),
            source: 4,
        }],
    }
}

#[test]
fn drafts_of_other_conversations_are_found_again_and_bounded() {
    let mut drafts = Vec::new();
    put_draft(&mut drafts, "b", "second");
    put_draft(&mut drafts, "a", "first");
    put_draft(&mut drafts, "b", "changed");
    assert_eq!(find_draft(&drafts, "b"), "changed");
    assert_eq!(find_draft(&drafts, "c"), "");
    for n in 0..40 {
        put_draft(&mut drafts, &format!("x{n}"), "text");
        trim_drafts(&mut drafts);
    }
    assert!(drafts.len() <= 16);
    assert!(is_before("a", "b"));
    assert!(!is_before("b", "a"));
    assert_eq!(tail("界界", 4), "界");
    assert!(transcript(&conversation().blocks).contains("hello"));
    let (text, next) = show_source(0, &b"ab\xffc".to_vec());
    assert!(text.contains('\u{fffd}'));
    assert_eq!(next, None);
}

#[test]
fn an_uncertain_message_is_not_sent_again() {
    let mut ui = ExternalUi::new(true, true);
    assert!(matches!(ui.open(), Some(Request::Catalog(None))));
    assert!(ui.working());
    let items = catalog(
        &vec![Endpoint { handle: 2, name: "agent".to_owned(), enabled: true }],
        &vec![Saved { handle: 5, endpoint: "agent".to_owned(), id: "one".to_owned() }],
    );
    assert!(items.iter().any(|item| matches!(item.1, ExternalChoice::Open(5))));
    ui.next(Event::Catalog(items), None);
    assert!(matches!(
        ui.take_choice(ExternalChoice::Open(5)),
        Some(Request::Open { id: 5, .. })
    ));
    let held = conversation();
    ui.next(Event::Attached { id: "one".to_owned(), notice: None }, Some(&held));
    ui.paste("hello").unwrap();
    let sent = ui.key(KeyEvent::plain(KeyCode::Enter), Some(&held));
    assert!(matches!(sent, Some(Request::Control(Control::Submit))));
    ui.next(Event::Failed("lost".to_owned()), Some(&held));
    assert_eq!(ui.text(), "hello");
    let again = ui.key(KeyEvent::plain(KeyCode::Enter), Some(&held));
    assert!(!matches!(again, Some(Request::Control(Control::Submit))));
    assert!(!controls(&held).is_empty());
    let (rows, _) = attention(&Vec::new(), false);
    assert!(!rows.iter().any(|item| matches!(item.1, ExternalChoice::AttentionOpen { .. })));
    assert!(ui.take_native().is_none());
    assert_ne!(Position { handle: 1, native: true }, Position { handle: 1, native: false });
}

#[test]
fn frames_are_sent_in_bounded_pieces() {
    let bytes: Vec<u8> = (0..=255).collect();
    let pieces = fragments(&bytes, 100);
    assert_eq!(pieces.len(), 3);
    assert_eq!(pieces.concat(), bytes);
    let mut frame = FrameBytes::new(100, 256);
    for piece in &pieces {
        frame.push(piece, false).unwrap();
    }
    assert!(frame.push(&vec![0], false).is_err());
    let mut other = FrameBytes::new(100, 256);
    assert!(other.push(&vec![0], true).is_err());
    assert!(other.push(&vec![0; 101], false).is_err());
    assert_eq!(frame.into_bytes(), bytes);
    assert!(check_request(false, None, 4, 4).is_ok());
    assert!(check_request(true, None, 4, 4).is_err());
    assert!(check_request(false, None, 4, 5).is_err());
    assert!(check_request(false, Some("bad"), 4, 4).is_err());
    assert!(!timed_out().is_empty());
    assert!(!FrameRendererContract::key().is_empty());
    assert!(LinkedPresentationFactory.prepare(true).is_ok());
    assert!(LinkedPresentationFactory.prepare(false).is_err());
    assert!(PortablePresentationFactory.prepare(false).is_err());
    assert!(PortablePresentationFactory.activate(false).is_err());
}

#[test]
fn a_surface_has_the_parts_that_it_can_use() {
    let parts = surface_parts(used(true, false));
    assert!(parts.contains(&SurfacePart::UiTarget));
    assert!(!parts.contains(&SurfacePart::FilesTarget));
    assert!(parts.contains(&SurfacePart::Renderer));
    assert!(activation_failed(2).contains('2'));
    assert!(cleanup_failed(3).contains('3'));
    assert!(missing_part(true, true).is_none());
    assert!(missing_part(false, true).is_some());
}

fn words(list: &[&str]) -> Vec<Argument> {
    list.iter()
        .map(|word| Argument { text: Some((*word).to_owned()), refused: Refusals::none() })
        .collect()
}

fn around() -> Surroundings {
    Surroundings {
        null: true,
        turn_bytes: 1 << 20,
        invocation_bytes: 20 * 1024,
        model_refused: false,
        terminal: None,
    }
}

#[test]
fn an_application_is_prepared_from_its_own_arguments() {
    let mut devices = Factory::new(Kind::Devices, words(&["list"]), 4);
    assert!(matches!(devices.prepare(&around(), "said"), Ok(Prepared::Devices(_))));
    assert!(devices.take_diagnostic().is_none());
    let mut wrong = Factory::new(Kind::Devices, words(&["nothing"]), 7);
    assert!(matches!(
        wrong.prepare(&around(), "said"),
        Err(Refusal::Arguments(ArgumentError::Form))
    ));
    let configured = Surroundings { null: false, ..around() };
    assert!(matches!(devices.prepare(&configured, "said"), Err(Refusal::Configuration)));
    let mut large = Factory::new(Kind::Headless, words(&["task"]), usize::MAX);
    assert!(matches!(large.prepare(&around(), "said"), Err(Refusal::Bound)));
    assert!(requirements(Kind::Tui).contains(&Requirement::Session));
}

#[test]
fn what_is_told_of_a_refused_preparation_is_kept_once_and_bounded() {
    let mut devices = Factory::new(Kind::Devices, words(&["list"]), 4);
    let configured = Surroundings { null: false, ..around() };
    assert!(devices.prepare(&configured, "said").is_err());
    assert_eq!(
        devices.take_diagnostic().as_deref(),
        Some("terminal application configuration must be null")
    );
    assert!(devices.take_diagnostic().is_none());
    let mut large = Factory::new(Kind::Headless, words(&["task"]), usize::MAX);
    assert!(large.prepare(&around(), "said").is_err());
    assert_eq!(
        large.take_diagnostic().as_deref(),
        Some("terminal arguments exceed their count or byte bound")
    );
    let busy = Surroundings { terminal: Some("é".repeat(5_000)), ..around() };
    let mut tui = Factory::new(Kind::Tui, Vec::new(), 0);
    assert!(matches!(tui.prepare(&busy, "said"), Err(Refusal::Terminal(_))));
    let told = tui.take_diagnostic().unwrap();
    assert_eq!(told.len(), DIAGNOSTIC_BYTES);
    assert_eq!(told, "é".repeat(DIAGNOSTIC_BYTES / 2));
    let mut headless = Factory::new(Kind::Headless, words(&["--nothing"]), 9);
    assert!(headless.prepare(&around(), "said").is_err());
    let told = headless.take_diagnostic().unwrap();
    assert!(told.ends_with("\nUse rsi --profile headless --help for application options."));
}

#[test]
fn an_entry_runs_once_and_a_terminal_has_one_holder() {
    let mut entry = Entry::new();
    assert!(entry.run().is_ok());
    assert!(matches!(entry.run(), Err(RunError::AlreadyStarted)));
    let mut stopped = Entry::new();
    stopped.stop();
    assert!(matches!(stopped.run(), Err(RunError::ShuttingDown)));
    let mut lease = TerminalLease { in_use: false };
    assert!(lease.acquire().is_ok());
    assert!(lease.acquire().is_err());
    lease.release();
    assert!(lease.acquire().is_ok());
}

#[test]
fn the_latest_conversation_here_is_exported() {
    let row = |id, root, here| Row { id, cursor: id, root, here };
    assert!(matches!(
        latest(&vec![row(1, false, true), row(2, true, true)], true, None),
        Latest::Found(2)
    ));
    assert!(matches!(latest(&vec![row(1, true, false)], true, None), Latest::Next(1)));
    assert!(matches!(latest(&vec![row(1, true, false)], false, None), Latest::Missing));
    assert!(matches!(latest(&vec![row(1, true, false)], true, Some(1)), Latest::Stuck));
    assert!(Latest::Missing.problem().is_some());
    assert!(matches!(destination(true, true), Destination::Named));
    assert!(matches!(destination(false, true), Destination::Default));
    assert!(matches!(destination(false, false), Destination::Output));
    assert_eq!(Error::Failed("why".to_owned()).message(), "why");
}

#[test]
fn a_document_is_a_line() {
    assert_eq!(framed(&b"{}".to_vec()), b"{}\n".to_vec());
    assert_eq!(ending(&Delivered::Written, "unknown", "delivery").0, 0);
    let (code, told) = ending(&Delivered::Failed("broken".to_owned()), "unknown", "delivery");
    assert_ne!(code, 0);
    assert!(told.unwrap().contains("broken"));
}

#[test]
fn the_first_error_is_kept() {
    assert!(matches!(error("a"), RsiError::Boot(_) | RsiError::Run(_)));
    assert!(matches!(session_error("b"), RsiError::Run(_)));
    let kept = first(Err(failure("one")), Err(failure("two")));
    assert!(matches!(
        kept,
        Err(RsiError::Run(told)) | Err(RsiError::Boot(told)) if told == "one"
    ));
    assert!(first(Ok(()), Ok(())).is_ok());
}
