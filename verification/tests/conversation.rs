use rsi_terminal::actions::{Action, FileRequest, Section, Source};
use rsi_terminal::answers::{given_notice, is_settled, scroll_by, Answer, Given};
use rsi_terminal::client::{
    attention_action, attach_refused, cancel_targets, copy, copy_told, is_observed, promoted_told, run_command, screen, scroll, Activity,
    CopyFrom, Copying, Over, Ran, Screen, ScrollFrom, Scrolling, TurnFact, Waiting,
};
use rsi_terminal::dispatch::{action, show_todos, Effect, LiveApproval, Opened, Situation, Todo, TodoStatus};
use rsi_terminal::clipboard::osc52;
use rsi_terminal::drafts::{blank_draft, first_reads, Attempts, Drafts};
use rsi_terminal::editor::Editor;
use rsi_terminal::extensions::{
    command_result, extension_menu, is_projection_notice, noticed, refreshed, Entry,
    ExtensionView, Projections, ResultStep,
};
use rsi_terminal::files::{insert_file, note_span, show_file_picker, FileEntry, FilePage, Inserted, Picked};
use rsi_terminal::history_search::workspace_id;
use rsi_terminal::job_preview::{job_menu, Job, Preview};
use rsi_terminal::keys::{KeyCode, KeyEvent, MouseEvent, MouseKind};
use rsi_terminal::lanes::{limit_of, Lanes, PageSize, WorkKind};
use rsi_terminal::line_client::CancelTarget;
use rsi_terminal::pages::{
    agents_menu, cancelled, message_cancelled, model_selected, show_output, show_window, Agent,
    OutputPage, Window,
};
use rsi_terminal::prompts::Prompts;
use rsi_terminal::references::{
    AddError, Part, Reference, References, DRAFT_BYTES,
};
use rsi_terminal::request_details::{section_menu, show_evidence, Evidence};
use rsi_terminal::retention::{
    enforce_fold_budget, fold_retention, is_over, oldest_first, trim, FoldList,
};
use rsi_terminal::routing::{
    is_dropped, key_route, mouse_route, Around, Asked, Front, KeyRoute, MouseRoute,
    PasteRoute, Told,
};
use rsi_terminal::scene::{Area, Shown};
use rsi_terminal::setup::Command;
use rsi_terminal::submission::{Circumstances, Failure, Step, Submission};

fn reference(id: u64) -> Reference {
    Reference {
        id,
        snapshot: id,
        source: "source".to_owned(),
        through: 1,
        first: 1,
        last: 2,
        text_bytes: 10,
        omissions: None,
        size: 100,
    }
}

#[test]
fn references_are_few_and_distinct() {
    let mut references = References::new();
    assert!(matches!(
        references.add_reference(reference(1), false, true, true, 0),
        Err(AddError::Invalid)
    ));
    assert!(matches!(
        references.add_reference(reference(1), true, false, true, 0),
        Err(AddError::OtherTarget)
    ));
    references.add_reference(reference(1), true, true, true, 0).unwrap();
    assert!(matches!(
        references.add_reference(reference(1), true, true, true, 0),
        Err(AddError::Present)
    ));
    assert!(references.contains(1));
    let parts = references.reference_input("text");
    assert!(parts.iter().any(|part| matches!(part, Part::Reference(1))));
    assert!(parts.iter().any(|part| matches!(part, Part::Text(text) if text == "text")));
    references.remove(1);
    assert_eq!(references.len(), 0);
    assert!(matches!(
        references.add_reference(reference(1), true, true, false, 0),
        Err(AddError::Refused)
    ));
    assert!(matches!(
        references.add_reference(reference(1), true, true, true, DRAFT_BYTES - 99),
        Err(AddError::Full)
    ));
    assert!(references.add_reference(reference(1), true, true, true, DRAFT_BYTES - 100).is_ok());
    assert_eq!(references.status(), "1 frozen references · Actions → Draft references");
}

fn calm(message: &str) -> Circumstances {
    Circumstances {
        steer: false,
        active: true,
        names_session: true,
        unresolved: None,
        elsewhere: 0,
        identity: Ok(message.to_owned()),
        problem: None,
    }
}

fn submit(submission: &mut Submission, editor: &mut Editor, lanes: &mut Lanes, c: &Circumstances) -> Step {
    submission.submit(
        editor,
        &mut References::new(),
        &mut Prompts::default(),
        lanes,
        "session",
        c,
    )
}

#[test]
fn an_input_with_an_unknown_outcome_is_sent_again_as_it_was() {
    let mut submission = Submission::new();
    let mut lanes = Lanes::new(false);
    let mut editor = Editor::default();
    editor.insert("hello").unwrap();
    let step = submit(&mut submission, &mut editor, &mut lanes, &calm("m1"));
    let Step::Send { tag, .. } = step else {
        panic!("the input is sent")
    };
    assert!(editor.text().is_empty());
    assert!(submission.busy());
    lanes.finish(tag);
    let failure = Failure { unknown: true, problem: "timed out".to_owned() };
    submission.submitted(Err(failure), &mut editor);
    assert!(!submission.busy());
    editor.insert("other").unwrap();
    assert!(matches!(
        submit(&mut submission, &mut editor, &mut lanes, &calm("m2")),
        Step::Refused(_)
    ));
    let running = lanes.tasks;
    assert!(matches!(submission.retry(&mut lanes, &calm("m3")), Step::Send { .. }));
    assert_eq!(lanes.tasks, running + 1);
    assert_eq!(submission.request().unwrap().message, "m1");
    assert!(submission.owns("m1"));
    assert!(attach_refused(&submission).is_some());
    assert!(promoted_told(&submission, Some("m1")).is_some());
    assert!(promoted_told(&submission, Some("other")).is_none());
    assert!(submission.submitted(Ok(()), &mut editor).durable);
    assert!(submission.request().is_none());
    assert!(attach_refused(&submission).is_none());
    assert!(is_observed(Some(3), 3));
    assert!(!is_observed(Some(2), 3));
    assert!(is_observed(None, 3));
    let delivery = osc52("text");
    assert!(copy_told(delivery, false).problem.is_some());
}

#[test]
fn sent_inputs_stand_in_ascending_order() {
    let mut submission = Submission::new();
    let mut lanes = Lanes::new(false);
    let mut editor = Editor::default();
    for id in ["m2", "m3", "m1"] {
        editor.insert("hello").unwrap();
        let Step::Send { tag, .. } = submit(&mut submission, &mut editor, &mut lanes, &calm(id))
        else {
            panic!("the input is sent")
        };
        lanes.finish(tag);
        submission.submitted(Ok(()), &mut editor);
    }
    assert_eq!(submission.swap_owned(Vec::new()), ["m1", "m2", "m3"]);
}

#[test]
fn a_refused_input_comes_back() {
    let mut submission = Submission::new();
    let mut lanes = Lanes::new(false);
    let mut editor = Editor::default();
    editor.insert("hello").unwrap();
    submit(&mut submission, &mut editor, &mut lanes, &calm("m1"));
    let failure = Failure { unknown: false, problem: "refused".to_owned() };
    submission.submitted(Err(failure), &mut editor);
    assert_eq!(editor.text(), "hello");
    assert!(!submission.owns("m1"));
    editor.take();
    editor.insert("/quit").unwrap();
    assert!(matches!(
        submit(&mut submission, &mut editor, &mut lanes, &calm("m2")),
        Step::Run(Command::Quit)
    ));
}

#[test]
fn lanes_admit_less_urgent_work_first_to_wait() {
    assert!(limit_of(WorkKind::Read) <= limit_of(WorkKind::Submit));
    assert!(limit_of(WorkKind::Submit) <= limit_of(WorkKind::Cancel));
    let mut lanes = Lanes::new(false);
    let tag = lanes.spawn(WorkKind::Read).unwrap();
    assert!(!lanes.superseded(tag));
    lanes.attach(false);
    assert!(lanes.superseded(tag));
    assert!(is_dropped(&lanes, tag, Told::Other));
    while lanes.spawn(WorkKind::Read).is_some() {}
    assert!(lanes.spawn(WorkKind::Cancel).is_some());
}

#[test]
fn history_is_filled_back_up_to_a_bound() {
    let mut lanes = Lanes::new(true);
    let mut pages = 0;
    while let Some((tag, _)) = lanes.read_history(false, Some(100)) {
        lanes.finish(tag);
        lanes.page(PageSize {
            bytes: 1,
            has_more: true,
            first: Some(10),
            before: 100,
            boundary: false,
        });
        pages += 1;
        assert!(pages <= 8);
    }
}

fn quiet() -> Situation {
    Situation {
        tasks: 0,
        request: None,
        rejected: false,
        quoted: Vec::new(),
        saved: Vec::new(),
        parent: None,
        todos: None,
        metrics: None,
        priced: false,
        questions: Vec::new(),
        approvals: Vec::new(),
        command: (String::new(), String::new()),
        message: String::new(),
        block: None,
    }
}

#[test]
fn actions_are_decided_from_what_there_is() {
    assert!(matches!(action(Action::Exit, &quiet()).effect, Effect::Exit));
    assert!(matches!(action(Action::Login, &quiet()).effect, Effect::Open(Opened::Login)));
    assert!(!matches!(
        action(Action::Decide { approval: 5, allow: true }, &quiet()).effect,
        Effect::Ask { .. }
    ));
    let mut asked = quiet();
    asked.approvals.push(LiveApproval {
        handle: 5,
        action: "run".to_owned(),
        reason: "why".to_owned(),
        body: "body".to_owned(),
    });
    assert!(matches!(
        action(Action::Decide { approval: 5, allow: true }, &asked).effect,
        Effect::Ask { .. }
    ));
    let mut busy = quiet();
    busy.tasks = 8;
    assert!(!matches!(action(Action::Agents, &busy).effect, Effect::Ask { .. }));
    let todos = Some(vec![Todo { status: TodoStatus::Completed, content: "write".to_owned() }]);
    assert!(show_todos(&todos).contains("write"));
}

fn nothing() -> Front {
    Front {
        profiles: false,
        external: false,
        setup: false,
        dialog: false,
        menu: false,
        answer: false,
        ui_edit: false,
        detail: false,
    }
}

fn idle() -> Asked {
    Asked { slash: false, extension: false, word_start: true, idle: true }
}

#[test]
fn keys_go_to_what_stands_in_front() {
    let enter = KeyEvent::plain(KeyCode::Enter);
    assert_eq!(key_route(nothing(), enter, idle()), KeyRoute::Submit);
    let mut setup = nothing();
    setup.setup = true;
    assert_eq!(key_route(setup, enter, idle()), KeyRoute::Setup);
    assert_eq!(setup.paste_route(false), PasteRoute::Setup);
    let mut menu = nothing();
    menu.menu = true;
    assert_eq!(key_route(menu, enter, idle()), KeyRoute::MenuEnter);
    assert_eq!(nothing().paste_route(false), PasteRoute::Draft);
    assert!(nothing().offers_commands());
}

#[test]
fn a_click_on_an_older_menu_goes_nowhere() {
    let area = Area { x: 0, y: 0, width: 10, height: 10 };
    let view = Shown {
        choice_revision: 4,
        area,
        choices_area: area,
        choices: vec![(1, 0), (2, 1)],
        scroll_max: 0,
        completion: None,
    };
    let around = Around { dialog: Some(area), belongs: true, footer: Vec::new() };
    let mut menu = nothing();
    menu.menu = true;
    menu.dialog = true;
    let press = MouseEvent { kind: MouseKind::LeftDown, column: 1, row: 2 };
    assert_eq!(mouse_route(menu, press, false, &view, &around, 4), MouseRoute::MenuSelect(1));
    assert_eq!(mouse_route(menu, press, false, &view, &around, 5), MouseRoute::Nobody);
}

#[test]
fn answers_are_given_in_order() {
    let mut answer = Answer::new(7, vec![vec!["yes".to_owned(), "no".to_owned()], Vec::new()]);
    assert_eq!(answer.give(0, true), Given::Nothing);
    answer.insert("2").unwrap();
    assert_eq!(answer.give(8, true), Given::Busy);
    assert_eq!(answer.give(0, false), Given::Withdrawn);
    assert_eq!(answer.give(0, true), Given::Next);
    answer.insert("because").unwrap();
    assert_eq!(answer.give(0, true), Given::Complete);
    assert_eq!(answer.answers(), &vec!["no".to_owned(), "because".to_owned()]);
    assert!(given_notice(Given::Busy).is_some());
    assert!(is_settled(&vec![1, 2], 7));
    assert!(!is_settled(&vec![7], 7));
    assert_eq!(scroll_by(0, true, 9), 0);
}

#[test]
fn drafts_come_back_with_their_conversation() {
    let mut first = blank_draft(1);
    first.editor.insert("written").unwrap();
    let mut drafts = Drafts::new(10, first);
    drafts.switch_session_draft(20, 1, 2);
    assert!(drafts.draft().editor.text().is_empty());
    assert!(drafts.keeps(10));
    drafts.switch_session_draft(10, 2, 3);
    assert_eq!(drafts.draft().editor.text(), "written");
    assert!(first_reads(Some(9), None).page || first_reads(Some(9), None).live);
    let mut attempts = Attempts::new();
    let mut delays = Vec::new();
    while let Some(delay) = attempts.capacity() {
        delays.push(delay);
    }
    assert_eq!(delays, vec![50, 100, 200, 400]);
}

#[test]
fn what_is_copied_and_scrolled_is_what_is_shown() {
    let from = CopyFrom {
        tasks: 0,
        menu: false,
        session: None,
        writing: false,
        detail: Some(10),
        selection: false,
        current: true,
    };
    assert_eq!(copy(from), Copying::Detail);
    assert_eq!(copy(CopyFrom { detail: Some(5 << 20), ..from }), Copying::TooLarge);
    assert_eq!(copy(CopyFrom { tasks: 64, ..from }), Copying::Busy);
    let scrolled = ScrollFrom {
        dialog: false,
        dialog_shown: false,
        maximum: 100,
        answer: false,
        detail: Some(5),
        belongs: true,
        empty: false,
        sources: true,
        at_bottom: false,
    };
    assert!(matches!(scroll(scrolled, false), Scrolling::Detail(_)));
    assert_eq!(screen(true, true, false, false).0, Screen::Profiles);
    assert_eq!(screen(false, false, true, false), (Screen::Conversation, Over::Setup));
}

#[test]
fn a_client_cancels_its_own_inputs() {
    let pending = vec!["a".to_owned(), "b".to_owned()];
    let owned = vec!["b".to_owned(), "c".to_owned()];
    let targets = cancel_targets(Some("turn"), &pending, &owned);
    assert!(targets.iter().any(|t| matches!(t, CancelTarget::Turn(id) if id == "turn")));
    assert!(targets.iter().any(|t| matches!(t, CancelTarget::Message(id) if id == "b")));
    assert!(!targets.iter().any(|t| matches!(t, CancelTarget::Message(id) if id == "a")));
    let mut activity = Activity::new(None);
    activity.fact(TurnFact::Accepted("turn".to_owned()));
    assert!(activity.active);
    activity.fact(TurnFact::Terminal);
    assert!(!activity.active);
    assert!(matches!(run_command(Command::Quit), Ran::Quit));
    let waiting = vec![Waiting {
        handle: 3,
        request: "r".to_owned(),
        turn: "t".to_owned(),
        session: "s".to_owned(),
    }];
    assert!(matches!(
        attention_action(true, &waiting, "r", "t", "s"),
        Some(Action::Question(3))
    ));
    assert!(attention_action(true, &waiting, "r", "t", "other").is_none());
}

#[test]
fn pages_of_output_lead_back_and_on() {
    let page = OutputPage {
        handle: 4,
        id: "out".to_owned(),
        offset: 16384,
        next_offset: 16390,
        total_bytes: 20000,
        bytes: b"ab\xffcd\n".to_vec(),
    };
    let detail = show_output(&page);
    assert!(detail.text.contains("ab\u{fffd}cd"));
    assert!(matches!(detail.previous, Some(Action::Output { id: 4, offset: 0 })));
    assert!(matches!(detail.next, Some(Action::Output { id: 4, offset: 16390 })));
    let window = Window {
        source: Source { seq: 1, field: 2 },
        start: 0,
        text: "abc".to_owned(),
        end: 3,
        truncated_after: true,
    };
    let detail = show_window(&window, 100);
    assert!(detail.previous.is_none());
    assert!(matches!(detail.next, Some(Action::Window { offset: 3, .. })));
    let agents = agents_menu(&vec![Agent {
        path: vec![1, 2],
        task: "look".to_owned(),
        open_turn: true,
        active: true,
        waking: false,
        session: 9,
    }]);
    assert!(agents.items.iter().any(|item| matches!(item.1, Action::Attach(9))));
    assert!(model_selected("fast", Some("high")).contains("high"));
    assert!(cancelled(2).contains('2'));
    assert_ne!(message_cancelled(true), message_cancelled(false));
}

#[test]
fn extensions_are_shown_anew_only_while_they_are_open() {
    assert!(refreshed(Some(ExtensionView::Menu), true, false).is_some());
    assert!(refreshed(Some(ExtensionView::Menu), false, false).is_none());
    let projections = Projections {
        cursor: "1".to_owned(),
        entries: vec![Entry { handle: 6, producer: "p".to_owned(), shown: Ok("{}".to_owned()) }],
    };
    let menu = extension_menu(&Some(projections), "");
    assert!(menu.items.iter().any(|item| matches!(item.1, Action::Extension(6))));
    assert!(matches!(command_result(Some("id"), None), ResultStep::Query(_)));
    assert!(noticed("kind", "value").contains("value"));
    assert!(!is_projection_notice("nothing"));
}

#[test]
fn a_file_is_put_where_the_cursor_was() {
    let mut editor = Editor::default();
    editor.insert("see ").unwrap();
    let span = note_span(None, &editor);
    assert_eq!(span, (4, 4));
    assert!(matches!(insert_file(None, &mut editor, "@a"), Inserted::NotNoted));
    assert!(matches!(insert_file(Some(span), &mut editor, "@a"), Inserted::Done));
    assert!(editor.text().starts_with("see @a"));
    assert!(matches!(insert_file(Some(span), &mut editor, "@b"), Inserted::CursorMoved));
    let page = FilePage {
        page: 12,
        path: Vec::new(),
        directory: true,
        entries: vec![FileEntry { name: "a".to_owned(), directory: Some(false) }],
        offset: 0,
        next_offset: 1,
        total: 1,
        more: false,
        locator: String::new(),
        text: String::new(),
    };
    let Picked::Directory { menu, .. } = show_file_picker(&page) else {
        panic!("a directory")
    };
    assert!(menu
        .items
        .iter()
        .any(|item| matches!(item.1, Action::FilePicker(FileRequest::OpenEntry { page: 12, index: 0 }))));
}

#[test]
fn a_workspace_is_named_by_the_digest_of_its_directory() {
    assert_eq!(
        workspace_id("abc"),
        "ba7816bf8f01cfea414140de5dae2223b00361a396177a9cb410ff61f20015ad"
    );
}

#[test]
fn a_page_of_history_that_fails_ends_reading_back() {
    let page = PageSize { bytes: 1, has_more: true, first: Some(9), before: 10, boundary: false };
    let mut lanes = Lanes::new(true);
    lanes.page(page);
    assert!(lanes.reads_on());
    let (tag, before) = lanes.read_on().unwrap();
    assert_eq!((tag.kind, before), (WorkKind::History, 9));
    assert!(!lanes.reads_on());
    assert!(lanes.read_on().is_none());
    assert!(lanes.finish(tag));
    lanes.page_failed();
    assert!(!lanes.reads_on());
    assert!(lanes.read_on().is_none());
    assert_eq!(lanes.history.before, Some(9));
    assert!(lanes.read_history(true, None).is_some());
    assert!(lanes.history.backfill);
}

#[test]
fn the_text_of_a_pending_input_is_read_for_what_is_shown() {
    let outcome = action(Action::Message(4), &quiet());
    assert!(matches!(
        outcome.effect,
        Effect::ChooseAndAsk { kind: WorkKind::Detail, action: Action::Message(4), .. }
    ));
}

#[test]
fn a_watched_command_is_looked_at_once_at_a_time() {
    let mut preview = Preview::new(3, 100);
    assert_eq!(preview.poll(99, 0, true, false), None);
    assert_eq!(preview.poll(100, 0, true, true), None);
    assert_eq!(preview.poll(100, 0, true, false), Some(3));
    assert_eq!(preview.poll(400, 0, true, false), None);
    preview.looked();
    assert_eq!(preview.poll(349, 0, true, false), None);
    assert_eq!(preview.poll(350, 0, true, false), Some(3));
    assert!(job_menu(&Vec::new(), None).is_none());
    let job = Job {
        request: 3,
        name: "make".to_owned(),
        id: "j".to_owned(),
        status: "running".to_owned(),
        traced: true,
    };
    let menu = job_menu(&vec![job], Some(8)).unwrap();
    assert!(matches!(menu.items.last().unwrap().1, Action::Jobs(Some(8))));
}

fn folds(name: &str, used: u64, count: usize) -> FoldList {
    FoldList { name: name.to_owned(), used, weights: vec![10; count], fixed: 32, unused: 0 }
}

#[test]
fn lists_give_up_folds_one_after_the_other() {
    let saved = vec![folds("new", 3, 1500), folds("old", 1, 1500), folds("middle", 2, 1500)];
    let front = folds("", 4, 2000);
    let held = fold_retention(&saved, &front);
    assert_eq!((held.count, held.retained), (6500, 65_128));
    let given = enforce_fold_budget(&saved, &front, &vec![0; 4]);
    assert_eq!(given.order, [1, 2, 0, 3]);
    assert_eq!(given.folds, [0, 1500, 904, 0]);
    assert_eq!(given.budget.count, 4096);
    let left = enforce_fold_budget(&saved, &front, &vec![0, 1_100_000, 0, 0]);
    assert_eq!(left.folds, [1500, 1500, 1500, 2000]);
    let alone = enforce_fold_budget(&Vec::new(), &folds("", 0, 5000), &vec![0]);
    assert_eq!(alone.folds, [904]);
    let few = enforce_fold_budget(&vec![folds("a", 1, 4)], &folds("", 2, 4), &vec![0, 0]);
    assert_eq!(few.folds, [0, 0]);
}

#[test]
fn folds_of_a_kept_draft_are_dropped_from_the_start() {
    let mut draft = blank_draft(0);
    draft.folds = vec![("one".to_owned(), true), ("two".to_owned(), false), ("three".to_owned(), true)];
    let mut drafts = Drafts::new(1, draft);
    drafts.switch_session_draft(2, 7, 0);
    assert_eq!(drafts.saved(0).session, 1);
    assert_eq!(drafts.saved(0).last_used, 7);
    drafts.drop_folds(0, 2);
    assert_eq!(drafts.saved(0).draft.folds, [("three".to_owned(), true)]);
    drafts.drop_folds(0, 1);
    assert!(drafts.saved(0).draft.folds.is_empty());
}

#[test]
fn what_is_kept_is_bounded_from_the_oldest_on() {
    assert!(is_over(4097, 0));
    assert!(!is_over(4096, 1048576));
    let named = |name: &str, used| folds(name, used, 1);
    assert_eq!(
        oldest_first(&vec![named("a", 5), named("b", 1), named("c", 3)]),
        vec![1, 2, 0]
    );
    assert_eq!(
        oldest_first(&vec![named("b", 2), named("c", 1), named("a", 2)]),
        vec![1, 2, 0]
    );
    let (dropped, count, retained) = trim(&vec![10, 20], 4097, 1048576);
    assert_eq!((dropped, count, retained), (1, 4096, 1048566));
}

#[test]
fn evidence_is_paged() {
    let evidence = Evidence::Page { start: 0, text: "abc".to_owned(), more: true, total: 9 };
    let detail = show_evidence(4, Section::Tools, &evidence, 3);
    assert!(matches!(detail.next, Some(Action::Evidence { seq: 4, from: 3, .. })));
    assert!(detail.previous.is_none());
    assert!(show_evidence(4, Section::Tools, &Evidence::NotCaptured, 3).next.is_none());
    assert!(section_menu(4).items.len() >= 3);
}
