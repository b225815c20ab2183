use rsi_terminal::line_client::{
    active_target, check_submit, exit_code, known_of, named_target, next_before, read_line,
    reconnecting_kind, stopped_told, tell_output, AnswerDraft, CancelTarget, Cancelling, Interrupted,
    Interruptible, Known, Line, LineState, MessageState, ObservationKind, Pruning, StatusError,
    Todo, Wait,
};
use rsi_terminal::pages::OutputPage;

#[test]
fn answer_draft_rejects_empty_input_without_consuming_the_question() {
    let mut draft = AnswerDraft {
        request: "request".to_owned(),
        questions: vec![vec!["one".to_owned()]],
        answers: Vec::new(),
    };
    assert!(draft.push("  ").is_err());
    assert!(draft.answers.is_empty());
    draft.push("1").unwrap();
    assert_eq!(draft.answers, ["one"]);
    assert!(draft.push("again").is_err());
    assert!(draft.prompt().is_err());
}

#[test]
fn owned_cancellation_visits_later_messages_after_missing_or_failed_lookup() {
    for first in [StatusError::NotFound, StatusError::Failed("first lookup failed".to_owned())] {
        let failed = matches!(first, StatusError::Failed(_));
        let owned = vec!["a-first".to_owned(), "b-second".to_owned()];
        let mut cancelling = Cancelling::new(&owned);
        assert_eq!(cancelling.next().as_deref(), Some("a-first"));
        assert!(cancelling.owned("a-first", Err(first)).is_none());
        assert_eq!(cancelling.next().as_deref(), Some("b-second"));
        let second = cancelling.owned("b-second", Ok(MessageState::Pending));
        assert_eq!(cancelling.next(), None);
        assert!(matches!(second, Some(CancelTarget::Message(id)) if id == "b-second"));
        assert_eq!(cancelling.failure.is_some(), failed);
    }
}

#[test]
fn interrupts_end_busy_waits_after_their_grace() {
    let mut wait = Interruptible::new();
    assert!(matches!(wait.tick(0), Wait::Goes));
    assert!(matches!(wait.signal(5), Wait::Tell));
    assert!(matches!(wait.tick(1004), Wait::Goes));
    assert!(matches!(wait.tick(1005), Wait::Ends { interrupted: true }));
    assert!(matches!(wait.signal(6), Wait::Ends { interrupted: true }));
}

#[test]
fn lines_are_said_or_asked() {
    assert!(matches!(read_line("hello"), Line::Say(said) if said == "hello"));
    assert!(matches!(read_line("::hello"), Line::Say(said) if said == ":hello"));
    assert!(matches!(read_line("   "), Line::Blank));
    assert!(matches!(read_line(":exit"), Line::Exit));
    assert!(matches!(read_line(":attach one"), Line::Attach(id) if id == "one"));
    assert!(matches!(read_line(":history 12"), Line::History(Some(12))));
    assert!(matches!(read_line(":history x"), Line::BadNumber(_)));
    assert!(matches!(read_line(":output id 7"), Line::Output { offset: 7, .. }));
    assert!(matches!(read_line(":output"), Line::Problem(_)));
    assert!(matches!(
        read_line(":allow session id"),
        Line::Decide { allow: true, .. }
    ));
    assert!(matches!(read_line(":deny"), Line::Problem(_)));
    assert!(matches!(read_line(":steer now"), Line::Steer(said) if said == "now"));
    assert!(matches!(read_line(":unknown"), Line::Problem(_)));
}

#[test]
fn a_line_is_taken_as_an_answer_while_a_question_is_open() {
    let mut state = LineState::new(true, Some(9));
    assert!(matches!(state.step(read_line(":history"), false), Todo::ReadHistory(Some(9))));
    assert!(matches!(state.step(read_line(":attach one"), true), Todo::Problem(_)));
    state.answering(AnswerDraft {
        request: "request".to_owned(),
        questions: vec![vec!["one".to_owned()], Vec::new()],
        answers: Vec::new(),
    });
    assert!(matches!(state.step(read_line("1"), false), Todo::Prompt(1)));
    let done = state.step(read_line("because"), false);
    assert!(matches!(done, Todo::SendAnswers(draft) if draft.answers == ["one", "because"]));
    assert!(matches!(state.step(read_line("hi"), false), Todo::Submit { prune: false, .. }));
    state.submitted("message".to_owned());
    assert!(matches!(state.interrupted(), Interrupted::CancelOwned));
}

#[test]
fn targets_of_a_cancellation_are_named() {
    assert!(matches!(active_target(Some("turn")), Ok(CancelTarget::Turn(id)) if id == "turn"));
    assert!(active_target(None).is_err());
    assert!(matches!(
        named_target("message", Ok(MessageState::Claimed("turn".to_owned()))),
        Ok(CancelTarget::Turn(_))
    ));
    assert!(named_target("message", Err(StatusError::NotFound)).is_ok());
    assert!(check_submit(false, None).is_err());
    assert!(check_submit(true, Some("request")).is_err());
    assert!(check_submit(true, None).is_ok());
}

#[test]
fn only_what_is_known_to_be_over_is_forgotten() {
    let mut pruning = Pruning::new();
    pruning.looked("pending", Known::Pending);
    pruning.looked("done", Known::State { current: false });
    pruning.looked("gone", Known::NotFound);
    pruning.looked("unknown", Known::Failed("read failed".to_owned()));
    assert!(pruning.kept.contains(&"pending".to_owned()));
    assert!(pruning.kept.contains(&"unknown".to_owned()));
    assert!(!pruning.kept.contains(&"done".to_owned()));
    assert!(pruning.failure.is_some());
}

#[test]
fn inputs_stand_in_ascending_order_and_the_smallest_that_a_turn_took_is_kept() {
    let mut state = LineState::new(false, None);
    for id in ["m3", "m1", "m4", "m2", "m1"] {
        state.submitted(id.to_owned());
    }
    assert_eq!(state.owned, ["m1", "m2", "m3", "m4"]);
    let turn = |id: &str| known_of(Ok(MessageState::Claimed(id.to_owned())), Some("turn"));
    let failure = state.prune(vec![
        turn("other"),
        turn("turn"),
        turn("turn"),
        known_of(Err(StatusError::Failed("lost".to_owned())), None),
    ]);
    assert_eq!(state.owned, ["m2", "m4"]);
    assert_eq!(failure.as_deref(), Some("lost"));
    assert_eq!(state.prune(vec![Known::Pending, Known::NotFound]), None);
    assert_eq!(state.owned, ["m2"]);
    assert!(matches!(
        known_of(Ok(MessageState::Claimed("turn".to_owned())), None),
        Known::State { current: false }
    ));
    assert!(matches!(known_of(Err(StatusError::NotFound), None), Known::NotFound));
}

#[test]
fn a_page_of_output_is_told_as_text_and_in_hexadecimal() {
    let told = tell_output(&OutputPage {
        handle: 1,
        id: "out".to_owned(),
        offset: 4,
        next_offset: 7,
        total_bytes: 9,
        bytes: b"k\xff\n".to_vec(),
    });
    assert_eq!(told.id, "out");
    assert_eq!((told.offset, told.next_offset, told.total_bytes), (4, 7, 9));
    assert_eq!(told.text, "k\u{fffd}\n");
    assert_eq!(told.bytes_hex, "6bff0a");
}

#[test]
fn exits_and_observations_are_told() {
    assert_eq!(exit_code(false, false, false, false), 0);
    assert_eq!(exit_code(true, false, false, false), 130);
    assert_ne!(exit_code(false, true, false, false), 0);
    assert_eq!(next_before(false, None), Ok(None));
    assert_eq!(next_before(true, Some(3)), Ok(Some(3)));
    assert!(next_before(true, None).is_err());
    assert_ne!(
        reconnecting_kind(ObservationKind::Facts),
        reconnecting_kind(ObservationKind::Projections)
    );
    let (kind, told, _) = stopped_told(ObservationKind::Interactions, "lost");
    assert!(!kind.is_empty());
    assert!(told.contains("lost"));
}
