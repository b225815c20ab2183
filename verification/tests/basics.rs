use rsi_terminal::arguments::{
    stdin_task, usage, Argument, ArgumentError, Command, Flag, Kind, OutputMode, Refusals,
    SandboxMode, Selection, StdinError, TaskSource,
};
use rsi_terminal::devices;
use rsi_terminal::display::{bounded, detail_pages, terminal_character, terminal_text};
use rsi_terminal::errors::RsiError;
use rsi_terminal::headless::{
    decide_ending, decide_operation, message_event, render_observation, workspace_matches, Ending,
    Finished, MessageEvent, OperationEnding, Run, SessionObservation, Stage, StageEvent, TurnEnd,
    TurnOutcome,
};
use rsi_terminal::identity::{
    encode_hex, generated_cli_message_id, generated_cli_session_id, generated_external_id,
    make_external_identity, make_identity,
};
use rsi_terminal::images::{check_count, ImageBudget, ImageError, MAXIMUM_CLI_IMAGE_BYTES};
use rsi_terminal::inspector;
use rsi_terminal::native_addons;
use rsi_terminal::number::{decimal, parse_usize, parse_within};
use rsi_terminal::output::{is_query_result, CliEvent, CliRenderState, FactBody, ToolContent};
use rsi_terminal::session_command::{parse_tui, SessionCommand};
use rsi_terminal::stdin::{is_last, LineReader, SessionInput};

fn words(list: &[&str]) -> Vec<Argument> {
    list.iter()
        .map(|word| Argument { text: Some((*word).to_owned()), refused: Refusals::none() })
        .collect()
}

#[test]
fn control_characters_are_shown_as_pictures_but_lines_stay() {
    assert_eq!(terminal_text("a\nb\tc"), "a\nb\tc");
    assert_eq!(terminal_character('\u{1b}'), terminal_text("\u{1b}").chars().next().unwrap());
    assert!(!terminal_text("\u{1b}[31m\u{7f}").contains('\u{1b}'));
    assert_eq!(terminal_text("\u{1b}x").chars().count(), 2);
}

#[test]
fn bounded_texts_end_at_a_character() {
    assert_eq!(bounded("界界", 4), "界");
    assert_eq!(bounded("abc", 10), "abc");
    assert_eq!(bounded("界", 2), "");
}

#[test]
fn pages_are_bounded_and_lose_nothing() {
    let text = "界".repeat(10_000);
    let pages = detail_pages(&text);
    assert!(pages.iter().all(|page| page.len() <= 8192));
    assert_eq!(pages.concat(), text);
}

#[test]
fn numbers_are_written_and_read_back() {
    for n in [0, 9, 10, 4096, u64::MAX] {
        assert_eq!(parse_within(&decimal(n), u64::MAX), Some(n));
    }
    assert_eq!(decimal(120), "120");
    assert_eq!(parse_within("11", 10), None);
    assert_eq!(parse_within("", 10), None);
    assert_eq!(parse_within("1a", 100), None);
    assert_eq!(parse_usize("+7"), Some(7));
}

#[test]
fn arguments_say_what_is_wrong_with_them() {
    let parse = |list: &[&str]| Command::parse(&words(list), 20 * 1024, false);
    assert!(matches!(parse(&["--help"]), Err(ArgumentError::HelpRequested)));
    assert!(matches!(parse(&["--cwd"]), Err(ArgumentError::Missing(Flag::Cwd))));
    assert!(matches!(
        parse(&["--stdin", "--stdin"]),
        Err(ArgumentError::Duplicate(Flag::Stdin))
    ));
    assert!(matches!(parse(&["--nothing"]), Err(ArgumentError::Unknown(0))));
    assert!(matches!(parse(&["--sandbox", "loose", "task"]), Err(ArgumentError::SandboxMode)));
    assert!(matches!(parse(&["--output", "xml", "task"]), Err(ArgumentError::OutputMode)));
    assert!(matches!(parse(&["one", "two"]), Err(ArgumentError::SecondTask)));
    assert!(matches!(parse(&["task", "--stdin"]), Err(ArgumentError::TaskCount)));
    assert!(matches!(parse(&[]), Err(ArgumentError::TaskCount)));
    assert!(matches!(
        parse(&["task", "--resume", "a", "--session-id", "b"]),
        Err(ArgumentError::ResumeAndSessionId)
    ));
    assert!(matches!(parse(&["task", "--model", "fast"]), Err(ArgumentError::ModelPair)));
    let mut refused = words(&["--session-id", "bad", "task"]);
    refused[1].refused.session = true;
    assert!(matches!(
        Command::parse(&refused, 20 * 1024, false),
        Err(ArgumentError::Refused(Kind::Session, 1))
    ));
    let accepted = parse(&["--sandbox", "read-only", "--output", "jsonl", "task"]).unwrap();
    assert_eq!(accepted.sandbox, Some(SandboxMode::ReadOnly));
    assert_eq!(accepted.output_mode(), OutputMode::Jsonl);
    assert!(matches!(accepted.task(), TaskSource::Argument(4)));
    assert!(matches!(accepted.session(), Selection::Fresh { trusted: false, .. }));
    assert!(matches!(usage("wrong"), RsiError::Boot(told) if told.starts_with("wrong\n")));
}

#[test]
fn a_task_from_the_standard_input_is_text() {
    assert_eq!(stdin_task(b"task".to_vec()).unwrap(), "task");
    assert!(matches!(stdin_task(vec![0xff]), Err(StdinError::NotUtf8)));
    assert!(matches!(stdin_task(vec![b'a'; 2 << 20]), Err(StdinError::TooLarge)));
}

#[test]
fn conversations_are_listed_or_opened_but_not_both() {
    assert!(SessionCommand::parse(&words(&["--list"])).unwrap().list);
    assert!(SessionCommand::parse(&words(&["--list", "--resume", "a"])).is_err());
    assert!(parse_tui(&words(&["--list"])).is_err());
    assert!(parse_tui(&words(&["--resume", "a"])).is_ok());
}

#[test]
fn operator_applications_take_their_own_words() {
    assert!(matches!(devices::Command::parse(&words(&["list"])), Ok(devices::Command::List)));
    assert!(matches!(
        devices::Command::parse(&words(&["configuration", "grant", "phone", "7"])),
        Ok(devices::Command::ConfigurationChange { granted: true, .. })
    ));
    assert!(matches!(
        devices::Command::parse(&words(&["configuration", "grant", "phone", "07"])),
        Err(ArgumentError::Revision)
    ));
    assert!(matches!(devices::Command::parse(&words(&["nothing"])), Err(ArgumentError::Form)));
    assert!(matches!(
        inspector::Command::parse(&words(&["native"])),
        Ok(inspector::Command::Native)
    ));
    assert!(inspector::Command::parse(&words(&["native", "1"])).is_err());
    assert!(matches!(
        native_addons::Command::parse(&words(&["refresh"])),
        Ok(native_addons::Command::Refresh)
    ));
    assert!(native_addons::Command::parse(&words(&[])).is_err());
}

#[test]
fn a_line_is_the_same_however_it_arrives() {
    let mut whole = LineReader::new();
    assert_eq!(whole.feed(b"one\ntwo"), (4, true));
    assert!(matches!(whole.finish(), SessionInput::Line(line) if line == "one"));
    let mut parts = LineReader::new();
    assert_eq!(parts.feed(b"on"), (2, false));
    assert_eq!(parts.feed(b"e\n"), (2, true));
    assert!(matches!(parts.finish(), SessionInput::Line(line) if line == "one"));
    let mut invalid = LineReader::new();
    invalid.feed(b"\xff\n");
    assert!(matches!(invalid.finish(), SessionInput::InvalidUtf8));
    let ended = LineReader::new().end();
    assert!(matches!(ended, SessionInput::Eof));
    assert!(is_last(&ended));
    let mut large = LineReader::new();
    large.feed(&vec![b'a'; 2 << 20]);
    large.feed(b"\n");
    assert!(matches!(large.finish(), SessionInput::TooLarge));
}

#[test]
fn images_share_one_budget() {
    assert_eq!(check_count(1, 2), Ok(()));
    assert_eq!(check_count(0, 0), Err(ImageError::Count));
    assert_eq!(check_count(usize::MAX, 0), Err(ImageError::Count));
    let mut budget = ImageBudget::new();
    assert_eq!(budget.judge(false, 1), Err(ImageError::NotAFile));
    assert_eq!(budget.accept(0), Err(ImageError::Empty));
    assert_eq!(budget.accept(MAXIMUM_CLI_IMAGE_BYTES), Ok(()));
    assert_eq!(budget.remaining(), 0);
    assert_eq!(budget.accept(1), Err(ImageError::Bytes));
}

#[test]
fn identifiers_are_their_bytes_in_hexadecimal() {
    assert_eq!(encode_hex(&[0, 0x1f, 0xff]), "001fff");
    let one = make_identity("cli-", [1; 16]);
    let two = make_identity("cli-", [2; 16]);
    assert_ne!(one, two);
    assert_eq!(one, format!("cli-{}", "01".repeat(16)));
    assert_eq!(generated_cli_session_id().unwrap().len(), generated_cli_session_id().unwrap().len());
    assert_ne!(generated_cli_session_id(), generated_cli_session_id());
    assert_ne!(generated_cli_message_id(), generated_cli_message_id());
    assert_ne!(generated_external_id(), generated_external_id());
    assert!(make_external_identity([1; 16]).ends_with(&"01".repeat(16)));
}

#[test]
fn text_ends_with_one_newline() {
    let mut state = CliRenderState::new();
    assert_eq!(state.write_text_delta("abc"), "abc");
    assert_eq!(state.write_media_reference("image"), "\nmedia:image\n");
    assert_eq!(state.finish_line(OutputMode::Text), "");
    state.write_text_delta("abc");
    assert_eq!(state.finish_line(OutputMode::Jsonl), "");
    assert_eq!(state.finish_line(OutputMode::Text), "\n");
    assert_eq!(state.finish_line(OutputMode::Text), "");
    assert!(is_query_result("sessions"));
    assert!(!is_query_result("nothing"));
}

fn fact(body: FactBody) -> CliEvent {
    CliEvent::Fact {
        session_id: "s\"1".to_owned(),
        fact: "{}".to_owned(),
        body,
        durable_seq: 7,
    }
}

#[test]
fn events_are_written_as_text_or_as_json() {
    let mut state = CliRenderState::new();
    let written = state.write(OutputMode::Text, &fact(FactBody::TextDelta("hi".to_owned())));
    assert_eq!(written.unwrap().stdout, "hi");
    let images = vec![ToolContent::Image("i".to_owned()), ToolContent::Text("t".to_owned())];
    let written = state.write(OutputMode::Text, &fact(FactBody::ToolResult(images)));
    assert_eq!(written.unwrap().stdout, "\nmedia:i\n");
    let line = fact(FactBody::Other).json_line().unwrap();
    assert!(line.contains("\"s\\\"1\""));
    assert!(line.contains("7"));
    assert!(line.ends_with('\n') || line.ends_with('}'));
}

#[test]
fn an_interrupt_goes_before_an_output_error_and_that_before_the_turn() {
    let done = || Some(Finished { outcome: Some(TurnOutcome::Completed), cancellation_requested: false });
    assert_eq!(decide_ending(true, true, &done()), Ending::Exit(130));
    assert_eq!(decide_ending(false, true, &done()), Ending::OutputFailed);
    assert_eq!(decide_ending(false, false, &done()), Ending::Diagnose(0));
    assert_eq!(decide_ending(false, false, &None), Ending::WorkerExited);
    let failed = Finished { outcome: None, cancellation_requested: false };
    assert_eq!(decide_ending(false, false, &Some(failed)), Ending::TurnFailed);
    let outcome = TurnOutcome::BudgetExceeded { dimension: "tokens".to_owned(), consumed: 12, limit: 10 };
    assert_eq!(
        outcome.diagnostic().unwrap(),
        "turn budget exceeded for tokens: consumed 12, limit 10"
    );
    let outcome = TurnOutcome::Failed { code: "code".to_owned(), message: "why".to_owned() };
    assert_eq!(outcome.diagnostic().unwrap(), "code: why");
    assert!(TurnOutcome::Completed.diagnostic().is_none());
}

#[test]
fn a_headless_run_goes_through_its_stages() {
    let mut run = Run::new(true, false);
    let mut seen = Vec::new();
    while !matches!(run.stage, Stage::Ended(_)) {
        seen.push(run.stage);
        let event = if matches!(run.stage, Stage::RunTurn) {
            StageEvent::TurnEnded(3)
        } else {
            StageEvent::Done
        };
        run.advance(event);
    }
    assert_eq!(run.stage, Stage::Ended(3));
    assert_eq!(seen[0], Stage::ReadTask);
    assert_eq!(*seen.last().unwrap(), Stage::RunTurn);
    let mut run = Run::new(true, false);
    run.advance(StageEvent::Failed(2));
    assert_eq!(run.stage, Stage::Ended(2));
    assert_eq!(decide_operation(None, true, false), OperationEnding::Interrupted);
    assert_eq!(decide_operation(Some(true), true, false), OperationEnding::Succeeded);
    assert_eq!(decide_operation(Some(false), true, false), OperationEnding::ActionFailed);
    assert_eq!(decide_operation(Some(true), false, false), OperationEnding::FlushFailed);
    assert!(workspace_matches(Some("/work"), "/work"));
    assert!(!workspace_matches(Some("/other"), "/work"));
    assert!(!workspace_matches(None, "/work"));
}

#[test]
fn a_message_is_followed_until_its_outcome() {
    let told = message_event(MessageEvent::Accepted {
        session_id: "s".to_owned(),
        message_id: "m".to_owned(),
        accepted_control_seq: 1,
    });
    assert!(matches!(told.event, CliEvent::Message { accepted_control_seq: 1, .. }));
    assert!(!told.finish);
    let told = message_event(MessageEvent::Outcome {
        session_id: "s".to_owned(),
        turn_id: "t".to_owned(),
        outcome: "{}".to_owned(),
        described: "done".to_owned(),
        durable_seq: 9,
    });
    assert!(told.finish);
    let (event, outcome) = render_observation(
        SessionObservation::Fact {
            fact: "{}".to_owned(),
            body: FactBody::TurnTerminal,
            durable_fact_seq: 4,
            terminal: Some(TurnEnd {
                turn_id: "t".to_owned(),
                outcome: "{}".to_owned(),
                described: "done".to_owned(),
            }),
        },
        "s",
    );
    assert!(matches!(event, CliEvent::Fact { durable_seq: 4, .. }));
    assert!(matches!(outcome, Some(CliEvent::Outcome { durable_seq: 4, .. })));
}
