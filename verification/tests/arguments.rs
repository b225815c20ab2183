use rsi_terminal::arguments::{Argument, Command, Refusals};

const BOUND: usize = 20 * 1024;

/// An empty object is no invocation; every other text is accepted by its owner.
fn parse(words: Vec<&str>) -> Result<Command, rsi_terminal::arguments::ArgumentError> {
    let arguments = words
        .into_iter()
        .map(|word| {
            let mut refused = Refusals::none();
            refused.invocation = word == "{}";
            Argument { text: Some(word.to_owned()), refused }
        })
        .collect();
    Command::parse(&arguments, BOUND, false)
}

#[test]
fn headless_command_grammar_rejects_ambiguous_modes_and_bounds_full_invocation() {
    for arguments in [
        vec!["--commands", "task"],
        vec!["--commands", "--command-status", "id"],
        vec!["--command-status", "id", "--stdin"],
        vec!["--commands", "--message-id", "message"],
        vec!["--command", "{}"],
    ] {
        assert!(parse(arguments).is_err());
    }
    assert!(parse(vec!["--commands"]).is_ok());
    assert!(parse(vec!["--command-status", "request"]).is_ok());
    let valid = r#"{"command":"fixture.plan","request_id":"request","expected_revision":{"kind":"draft","revision":0},"arguments":"on"}"#;
    assert!(parse(vec!["--command", valid]).is_ok());
    assert!(parse(vec!["--command", valid, "task"]).is_ok());
    assert!(parse(vec!["--command", &" ".repeat(32 * 1024)]).is_err());
}
