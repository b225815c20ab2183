//! The grammar of the interactive Session applications.
use vstd::prelude::*;
use vstd::string::*;
use crate::arguments;
use crate::arguments::{
    kind_value, output_value, text_value, value, Argument, ArgumentError, Flag, Kind, OutputMode,
    Selection,
};
use crate::text::{cat3, same};

verus! {

/// The option of a Session application that a word names.
pub open spec fn session_named(s: Seq<char>) -> Option<Flag> {
    if s == "--list"@ {
        Some(Flag::List)
    } else if s == "--history"@ {
        Some(Flag::History)
    } else if s == "--cwd"@ {
        Some(Flag::Cwd)
    } else if s == "--resume"@ {
        Some(Flag::Resume)
    } else if s == "--session-id"@ {
        Some(Flag::SessionId)
    } else if s == "--agent-preset"@ {
        Some(Flag::AgentPreset)
    } else if s == "--trust-workspace"@ {
        Some(Flag::TrustWorkspace)
    } else if s == "--output"@ {
        Some(Flag::Output)
    } else {
        None
    }
}

fn session_flag(word: &str) -> (r: Option<Flag>)
    ensures
        r == session_named(word@),
{
    if same(word, "--list") {
        Some(Flag::List)
    } else if same(word, "--history") {
        Some(Flag::History)
    } else if same(word, "--cwd") {
        Some(Flag::Cwd)
    } else if same(word, "--resume") {
        Some(Flag::Resume)
    } else if same(word, "--session-id") {
        Some(Flag::SessionId)
    } else if same(word, "--agent-preset") {
        Some(Flag::AgentPreset)
    } else if same(word, "--trust-workspace") {
        Some(Flag::TrustWorkspace)
    } else if same(word, "--output") {
        Some(Flag::Output)
    } else {
        None
    }
}

/// What an interactive application was asked to do. Numbers are indices of arguments.
#[derive(Clone, Copy, Debug, PartialEq, Eq, Structural)]
pub struct SessionCommand {
    pub list: bool,
    pub history: Option<usize>,
    pub cwd: Option<usize>,
    pub resume: Option<usize>,
    pub session_id: Option<usize>,
    pub agent_preset: Option<usize>,
    pub trust_workspace: bool,
    pub output: Option<OutputMode>,
}

impl SessionCommand {
    pub open spec fn empty() -> SessionCommand {
        SessionCommand {
            list: false,
            history: None,
            cwd: None,
            resume: None,
            session_id: None,
            agent_preset: None,
            trust_workspace: false,
            output: None,
        }
    }

    /// What the option at index `i` does: the index behind it and its values.
    pub open spec fn optioned(self, args: Seq<Argument>, i: int, flag: Flag) -> Result<
        (int, SessionCommand),
        ArgumentError,
    > {
        let c = self;
        match flag {
            Flag::List => if c.list {
                Err(ArgumentError::Duplicate(flag))
            } else {
                Ok((i + 1, SessionCommand { list: true, ..c }))
            },
            Flag::History => arguments::once(
                c.history,
                arguments::kind_value_at(args, i, flag, Kind::Session),
                flag,
                |j: usize| SessionCommand { history: Some(j), ..c },
            ),
            Flag::Cwd => arguments::once(
                c.cwd,
                arguments::value_at(args, i, flag),
                flag,
                |j: usize| SessionCommand { cwd: Some(j), ..c },
            ),
            Flag::Resume => arguments::once(
                c.resume,
                arguments::kind_value_at(args, i, flag, Kind::Session),
                flag,
                |j: usize| SessionCommand { resume: Some(j), ..c },
            ),
            Flag::SessionId => arguments::once(
                c.session_id,
                arguments::kind_value_at(args, i, flag, Kind::Session),
                flag,
                |j: usize| SessionCommand { session_id: Some(j), ..c },
            ),
            Flag::AgentPreset => arguments::once(
                c.agent_preset,
                arguments::kind_value_at(args, i, flag, Kind::Preset),
                flag,
                |j: usize| SessionCommand { agent_preset: Some(j), ..c },
            ),
            Flag::TrustWorkspace => if c.trust_workspace {
                Err(ArgumentError::Duplicate(flag))
            } else {
                Ok((i + 1, SessionCommand { trust_workspace: true, ..c }))
            },
            _ => if c.output is Some {
                Err(ArgumentError::Duplicate(flag))
            } else {
                match arguments::text_value_at(args, i, flag) {
                    Ok(j) => match arguments::output_named(args[j].text->0@) {
                        Some(mode) => Ok((j + 1, SessionCommand { output: Some(mode), ..c })),
                        None => Err(ArgumentError::OutputMode),
                    },
                    Err(e) => Err(e),
                }
            },
        }
    }

    /// What the arguments from index `i` on say.
    pub open spec fn scanned(self, args: Seq<Argument>, i: int) -> Result<
        SessionCommand,
        ArgumentError,
    >
        decreases args.len() - i,
    {
        if i >= args.len() {
            Ok(self)
        } else {
            match args[i].text {
                None => Err(ArgumentError::NotUtf8(i as usize)),
                Some(t) => match session_named(t@) {
                    None => Err(ArgumentError::Unknown(i as usize)),
                    Some(flag) => match self.optioned(args, i, flag) {
                        Ok((j, c)) => if j > i {
                            c.scanned(args, j)
                        } else {
                            Ok(c)
                        },
                        Err(e) => Err(e),
                    },
                },
            }
        }
    }

    /// Which options exclude each other, in the order in which they are checked.
    pub open spec fn validated(self) -> Result<SessionCommand, ArgumentError> {
        if (self.list && self.history is Some) || (self.list && self.resume is Some) || (
        self.history is Some && self.resume is Some) {
            Err(ArgumentError::ReadExclusive)
        } else if (self.list || self.history is Some) && (self.cwd is Some || self.session_id is Some
            || self.agent_preset is Some || self.trust_workspace) {
            Err(ArgumentError::ReadOnly)
        } else if self.resume is Some && self.session_id is Some {
            Err(ArgumentError::ResumeAndSessionId)
        } else if self.resume is Some && self.agent_preset is Some {
            Err(ArgumentError::ResumeAndPreset)
        } else if self.resume is Some && self.trust_workspace {
            Err(ArgumentError::ResumeAndTrust)
        } else {
            Ok(self)
        }
    }

    /// The whole grammar.
    pub open spec fn parsed(args: Seq<Argument>) -> Result<SessionCommand, ArgumentError> {
        match SessionCommand::empty().scanned(args, 0) {
            Ok(c) => c.validated(),
            Err(e) => Err(e),
        }
    }

    fn set(slot: &mut Option<usize>, found: Result<usize, ArgumentError>, flag: Flag) -> (r: Result<
        usize,
        ArgumentError,
    >)
        requires
            found matches Ok(j) ==> j < usize::MAX,
        ensures
            match r {
                Ok(next) => *old(slot) is None && found is Ok && *final(slot) == Some(found->Ok_0)
                    && next == found->Ok_0 + 1,
                Err(e) => *final(slot) == *old(slot) && match found {
                    Ok(_) => *old(slot) is Some && e == ArgumentError::Duplicate(flag),
                    Err(cause) => e == cause,
                },
            },
    {
        match found {
            Ok(j) => {
                if slot.is_some() {
                    Err(ArgumentError::Duplicate(flag))
                } else {
                    *slot = Some(j);
                    Ok(j + 1)
                }
            },
            Err(e) => Err(e),
        }
    }

    fn option(&mut self, args: &Vec<Argument>, i: usize, flag: Flag) -> (r: Result<
        usize,
        ArgumentError,
    >)
        requires
            i < args@.len(),
        ensures
            match r {
                Ok(j) => i < j <= args@.len() && old(self).optioned(args@, i as int, flag) == Ok::<
                    (int, SessionCommand),
                    ArgumentError,
                >((j as int, *final(self))),
                Err(e) => old(self).optioned(args@, i as int, flag) == Err::<
                    (int, SessionCommand),
                    ArgumentError,
                >(e),
            },
    {
        let total: usize = args.len();
        match flag {
            Flag::List => if self.list {
                Err(ArgumentError::Duplicate(flag))
            } else {
                self.list = true;
                Ok(i + 1)
            },
            Flag::History => Self::set(
                &mut self.history,
                kind_value(args, i, flag, Kind::Session),
                flag,
            ),
            Flag::Cwd => Self::set(&mut self.cwd, value(args, i, flag), flag),
            Flag::Resume => Self::set(
                &mut self.resume,
                kind_value(args, i, flag, Kind::Session),
                flag,
            ),
            Flag::SessionId => Self::set(
                &mut self.session_id,
                kind_value(args, i, flag, Kind::Session),
                flag,
            ),
            Flag::AgentPreset => Self::set(
                &mut self.agent_preset,
                kind_value(args, i, flag, Kind::Preset),
                flag,
            ),
            Flag::TrustWorkspace => if self.trust_workspace {
                Err(ArgumentError::Duplicate(flag))
            } else {
                self.trust_workspace = true;
                Ok(i + 1)
            },
            _ => if self.output.is_some() {
                Err(ArgumentError::Duplicate(flag))
            } else {
                match text_value(args, i, flag) {
                    Ok(j) => match &args[j].text {
                        Some(word) => match output_value(word.as_str()) {
                            Some(mode) => {
                                self.output = Some(mode);
                                Ok(j + 1)
                            },
                            None => Err(ArgumentError::OutputMode),
                        },
                        None => Err(ArgumentError::NotUtf8(j)),
                    },
                    Err(e) => Err(e),
                }
            },
        }
    }

    fn validate(&self) -> (r: Result<SessionCommand, ArgumentError>)
        ensures
            r == self.validated(),
    {
        let history: bool = self.history.is_some();
        let resume: bool = self.resume.is_some();
        if (self.list && history) || (self.list && resume) || (history && resume) {
            return Err(ArgumentError::ReadExclusive);
        }
        if (self.list || history) && (self.cwd.is_some() || self.session_id.is_some()
            || self.agent_preset.is_some() || self.trust_workspace) {
            return Err(ArgumentError::ReadOnly);
        }
        if resume && self.session_id.is_some() {
            return Err(ArgumentError::ResumeAndSessionId);
        }
        if resume && self.agent_preset.is_some() {
            return Err(ArgumentError::ResumeAndPreset);
        }
        if resume && self.trust_workspace {
            return Err(ArgumentError::ResumeAndTrust);
        }
        Ok(*self)
    }

    /// Reads the arguments of an interactive application.
    pub fn parse(args: &Vec<Argument>) -> (r: Result<SessionCommand, ArgumentError>)
        ensures
            r == SessionCommand::parsed(args@),
    {
        let mut c = SessionCommand {
            list: false,
            history: None,
            cwd: None,
            resume: None,
            session_id: None,
            agent_preset: None,
            trust_workspace: false,
            output: None,
        };
        let mut i: usize = 0;
        while i < args.len()
            invariant
                i <= args@.len(),
                c.scanned(args@, i as int) == SessionCommand::empty().scanned(args@, 0),
            decreases args@.len() - i,
        {
            match &args[i].text {
                None => {
                    return Err(ArgumentError::NotUtf8(i));
                },
                Some(word) => match session_flag(word.as_str()) {
                    None => {
                        return Err(ArgumentError::Unknown(i));
                    },
                    Some(flag) => match c.option(args, i, flag) {
                        Ok(j) => {
                            i = j;
                        },
                        Err(e) => {
                            return Err(e);
                        },
                    },
                },
            }
        }
        c.validate()
    }

    /// The session that an interactive application works on.
    pub fn session(&self) -> (r: Selection)
        ensures
            r == (match self.resume {
                Some(session) => Selection::Resume { session, cwd: self.cwd },
                None => Selection::Fresh {
                    cwd: self.cwd,
                    session_id: self.session_id,
                    agent_preset: self.agent_preset,
                    trusted: self.trust_workspace,
                },
            }),
    {
        match self.resume {
            Some(session) => Selection::Resume { session, cwd: self.cwd },
            None => Selection::Fresh {
                cwd: self.cwd,
                session_id: self.session_id,
                agent_preset: self.agent_preset,
                trusted: self.trust_workspace,
            },
        }
    }
}

/// Whether an argument asks for something that the fullscreen application does otherwise.
pub open spec fn not_for_tui(a: Argument) -> bool {
    a.is("--list"@) || a.is("--history"@) || a.is("--output"@)
}

/// The grammar of the fullscreen application: that of the others, without listing, history and
/// output options, which are refused before anything else is read.
pub open spec fn tui_parsed(args: Seq<Argument>) -> Result<SessionCommand, ArgumentError> {
    if exists|i: int| 0 <= i < args.len() && not_for_tui(#[trigger] args[i]) {
        Err(ArgumentError::TuiOption)
    } else {
        SessionCommand::parsed(args)
    }
}

/// Reads the arguments of the fullscreen application.
pub fn parse_tui(args: &Vec<Argument>) -> (r: Result<SessionCommand, ArgumentError>)
    ensures
        r == tui_parsed(args@),
{
    let mut i: usize = 0;
    while i < args.len()
        invariant
            i <= args@.len(),
            forall|j: int| 0 <= j < i ==> !not_for_tui(#[trigger] args@[j]),
        decreases args@.len() - i,
    {
        if let Some(word) = &args[i].text {
            let word: &str = word.as_str();
            if same(word, "--list") || same(word, "--history") || same(word, "--output") {
                proof {
                    assert(not_for_tui(args@[i as int]));
                }
                return Err(ArgumentError::TuiOption);
            }
        }
        i += 1;
    }
    SessionCommand::parse(args)
}

/// An accepted command asks for at most one of listing, history and resuming, never changes how
/// a session is created while it only reads, and never changes a session that it resumes.
pub proof fn law_session_exclusive(args: Seq<Argument>)
    requires
        SessionCommand::parsed(args) is Ok,
    ensures
        ({
            let c = SessionCommand::parsed(args)->Ok_0;
            &&& !(c.list && c.history is Some)
            &&& !(c.list && c.resume is Some)
            &&& !(c.history is Some && c.resume is Some)
            &&& c.list || c.history is Some ==> c.cwd is None && c.session_id is None
                && c.agent_preset is None && !c.trust_workspace
            &&& c.resume is Some ==> c.session_id is None && c.agent_preset is None
                && !c.trust_workspace
        }),
{
}

/// What to tell the person who gave the arguments of an interactive application.
pub open spec fn session_explained(e: ArgumentError, args: Seq<Argument>, detail: Seq<char>) -> Seq<
    char,
> {
    match e {
        ArgumentError::Unknown(i) => if i < args.len() && args[i as int].text is Some {
            "unknown Session application argument `"@ + args[i as int].text->0@ + "`"@
        } else {
            e.explained(args, detail)
        },
        _ => e.explained(args, detail),
    }
}

pub fn explain(e: &ArgumentError, args: &Vec<Argument>, detail: &str) -> (r: String)
    ensures
        r@ == session_explained(*e, args@, detail@),
{
    if let ArgumentError::Unknown(i) = e {
        if *i < args.len() {
            if let Some(word) = &args[*i].text {
                return cat3("unknown Session application argument `", word.as_str(), "`");
            }
        }
    }
    e.explain(args, detail)
}

proof fn lemma_session_words()
    ensures
        session_named("--list"@) == Some(Flag::List),
        session_named("--history"@) == Some(Flag::History),
        session_named("--cwd"@) == Some(Flag::Cwd),
        session_named("--resume"@) == Some(Flag::Resume),
        session_named("--session-id"@) == Some(Flag::SessionId),
        session_named("--agent-preset"@) == Some(Flag::AgentPreset),
        session_named("--trust-workspace"@) == Some(Flag::TrustWorkspace),
        session_named("--output"@) == Some(Flag::Output),
{
    assert(session_named("--list"@) == Some(Flag::List)) by {
        reveal_strlit("--list");
    }
    assert(session_named("--history"@) == Some(Flag::History)) by {
        reveal_strlit("--history");
        reveal_strlit("--list");
        assert("--list"@.len() != "--history"@.len());
    }
    assert(session_named("--cwd"@) == Some(Flag::Cwd)) by {
        reveal_strlit("--cwd");
        reveal_strlit("--list");
        assert("--list"@.len() != "--cwd"@.len());
        reveal_strlit("--history");
        assert("--history"@.len() != "--cwd"@.len());
    }
    assert(session_named("--resume"@) == Some(Flag::Resume)) by {
        reveal_strlit("--resume");
        reveal_strlit("--list");
        assert("--list"@.len() != "--resume"@.len());
        reveal_strlit("--history");
        assert("--history"@.len() != "--resume"@.len());
        reveal_strlit("--cwd");
        assert("--cwd"@.len() != "--resume"@.len());
    }
    assert(session_named("--session-id"@) == Some(Flag::SessionId)) by {
        reveal_strlit("--session-id");
        reveal_strlit("--list");
        assert("--list"@.len() != "--session-id"@.len());
        reveal_strlit("--history");
        assert("--history"@.len() != "--session-id"@.len());
        reveal_strlit("--cwd");
        assert("--cwd"@.len() != "--session-id"@.len());
        reveal_strlit("--resume");
        assert("--resume"@.len() != "--session-id"@.len());
    }
    assert(session_named("--agent-preset"@) == Some(Flag::AgentPreset)) by {
        reveal_strlit("--agent-preset");
        reveal_strlit("--list");
        assert("--list"@.len() != "--agent-preset"@.len());
        reveal_strlit("--history");
        assert("--history"@.len() != "--agent-preset"@.len());
        reveal_strlit("--cwd");
        assert("--cwd"@.len() != "--agent-preset"@.len());
        reveal_strlit("--resume");
        assert("--resume"@.len() != "--agent-preset"@.len());
        reveal_strlit("--session-id");
        assert("--session-id"@.len() != "--agent-preset"@.len());
    }
    assert(session_named("--trust-workspace"@) == Some(Flag::TrustWorkspace)) by {
        reveal_strlit("--trust-workspace");
        reveal_strlit("--list");
        assert("--list"@.len() != "--trust-workspace"@.len());
        reveal_strlit("--history");
        assert("--history"@.len() != "--trust-workspace"@.len());
        reveal_strlit("--cwd");
        assert("--cwd"@.len() != "--trust-workspace"@.len());
        reveal_strlit("--resume");
        assert("--resume"@.len() != "--trust-workspace"@.len());
        reveal_strlit("--session-id");
        assert("--session-id"@.len() != "--trust-workspace"@.len());
        reveal_strlit("--agent-preset");
        assert("--agent-preset"@.len() != "--trust-workspace"@.len());
    }
    assert(session_named("--output"@) == Some(Flag::Output)) by {
        reveal_strlit("--output");
        reveal_strlit("--list");
        assert("--list"@.len() != "--output"@.len());
        reveal_strlit("--history");
        assert("--history"@.len() != "--output"@.len());
        reveal_strlit("--cwd");
        assert("--cwd"@.len() != "--output"@.len());
        reveal_strlit("--resume");
        assert("--resume"@[2] != "--output"@[2]);
        reveal_strlit("--session-id");
        assert("--session-id"@.len() != "--output"@.len());
        reveal_strlit("--agent-preset");
        assert("--agent-preset"@.len() != "--output"@.len());
        reveal_strlit("--trust-workspace");
        assert("--trust-workspace"@.len() != "--output"@.len());
    }
}

proof fn lemma_only_option(args: Seq<Argument>, word: Seq<char>, flag: Flag, c: SessionCommand)
    requires
        args.len() > 0,
        args[0].is(word),
        session_named(word) == Some(flag),
        SessionCommand::empty().optioned(args, 0, flag) == Ok::<
            (int, SessionCommand),
            ArgumentError,
        >((args.len() as int, c)),
    ensures
        SessionCommand::empty().scanned(args, 0) == Ok::<SessionCommand, ArgumentError>(c),
{
    assert(c.scanned(args, args.len() as int) == Ok::<SessionCommand, ArgumentError>(c));
}

/// An option that takes an identifier holds the argument behind it, where the owner of that kind
/// accepts it; otherwise the argument is refused as one of that kind. Nothing else changes.
pub proof fn law_session_identifiers(args: Seq<Argument>)
    requires
        args.len() == 2,
        args[1].text is Some,
    ensures
        ({
            let p = SessionCommand::parsed(args);
            let r = args[1].refused;
            let e = SessionCommand::empty();
            &&& args[0].is("--history"@) && !r.session ==> p == Ok::<SessionCommand, ArgumentError>(
                SessionCommand { history: Some(1), ..e },
            )
            &&& args[0].is("--history"@) && r.session ==> p == Err::<SessionCommand, ArgumentError>(
                ArgumentError::Refused(Kind::Session, 1),
            )
            &&& args[0].is("--resume"@) && !r.session ==> p == Ok::<SessionCommand, ArgumentError>(
                SessionCommand { resume: Some(1), ..e },
            )
            &&& args[0].is("--resume"@) && r.session ==> p == Err::<SessionCommand, ArgumentError>(
                ArgumentError::Refused(Kind::Session, 1),
            )
            &&& args[0].is("--session-id"@) && !r.session ==> p == Ok::<SessionCommand, ArgumentError>(
                SessionCommand { session_id: Some(1), ..e },
            )
            &&& args[0].is("--session-id"@) && r.session ==> p == Err::<SessionCommand, ArgumentError>(
                ArgumentError::Refused(Kind::Session, 1),
            )
            &&& args[0].is("--agent-preset"@) && !r.preset ==> p == Ok::<SessionCommand, ArgumentError>(
                SessionCommand { agent_preset: Some(1), ..e },
            )
            &&& args[0].is("--agent-preset"@) && r.preset ==> p == Err::<SessionCommand, ArgumentError>(
                ArgumentError::Refused(Kind::Preset, 1),
            )
        }),
{
    lemma_session_words();
    let r = args[1].refused;
    let e = SessionCommand::empty();
    if args[0].is("--history"@) && !r.session {
        lemma_only_option(
            args,
            "--history"@,
            Flag::History,
            SessionCommand { history: Some(1), ..e },
        );
    }
    if args[0].is("--resume"@) && !r.session {
        lemma_only_option(
            args,
            "--resume"@,
            Flag::Resume,
            SessionCommand { resume: Some(1), ..e },
        );
    }
    if args[0].is("--session-id"@) && !r.session {
        lemma_only_option(
            args,
            "--session-id"@,
            Flag::SessionId,
            SessionCommand { session_id: Some(1), ..e },
        );
    }
    if args[0].is("--agent-preset"@) && !r.preset {
        lemma_only_option(
            args,
            "--agent-preset"@,
            Flag::AgentPreset,
            SessionCommand { agent_preset: Some(1), ..e },
        );
    }
}

/// The other options: `--list` and `--trust-workspace` stand alone, `--cwd` takes any argument as
/// the directory, and `--output` takes one of two words, each with a mode of its own.
pub proof fn law_session_options(args: Seq<Argument>)
    ensures
        ({
            let p = SessionCommand::parsed(args);
            let e = SessionCommand::empty();
            let ok = |c: SessionCommand| p == Ok::<SessionCommand, ArgumentError>(c);
            &&& args.len() == 0 ==> ok(e)
            &&& args.len() == 1 && args[0].is("--list"@) ==> ok(SessionCommand { list: true, ..e })
            &&& args.len() == 1 && args[0].is("--trust-workspace"@) ==> ok(
                SessionCommand { trust_workspace: true, ..e },
            )
            &&& args.len() == 2 && args[0].is("--cwd"@) ==> ok(SessionCommand { cwd: Some(1), ..e })
            &&& args.len() == 2 && args[0].is("--output"@) && args[1].is("text"@) ==> ok(
                SessionCommand { output: Some(OutputMode::Text), ..e },
            )
            &&& args.len() == 2 && args[0].is("--output"@) && args[1].is("jsonl"@) ==> ok(
                SessionCommand { output: Some(OutputMode::Jsonl), ..e },
            )
            &&& args.len() == 2 && args[0].is("--output"@) && args[1].text is Some && !args[1].is(
                "text"@,
            ) && !args[1].is("jsonl"@) ==> p == Err::<SessionCommand, ArgumentError>(
                ArgumentError::OutputMode,
            )
        }),
{
    lemma_session_words();
    reveal_strlit("text");
    reveal_strlit("jsonl");
    assert("text"@.len() != "jsonl"@.len());
    let e = SessionCommand::empty();
    if args.len() == 1 && args[0].is("--list"@) {
        lemma_only_option(args, "--list"@, Flag::List, SessionCommand { list: true, ..e });
    }
    if args.len() == 1 && args[0].is("--trust-workspace"@) {
        lemma_only_option(
            args,
            "--trust-workspace"@,
            Flag::TrustWorkspace,
            SessionCommand { trust_workspace: true, ..e },
        );
    }
    if args.len() == 2 && args[0].is("--cwd"@) {
        lemma_only_option(args, "--cwd"@, Flag::Cwd, SessionCommand { cwd: Some(1), ..e });
    }
    if args.len() == 2 && args[0].is("--output"@) && (args[1].is("text"@) || args[1].is("jsonl"@)) {
        let mode = if args[1].is("text"@) {
            OutputMode::Text
        } else {
            OutputMode::Jsonl
        };
        lemma_only_option(
            args,
            "--output"@,
            Flag::Output,
            SessionCommand { output: Some(mode), ..e },
        );
    }
}

/// No option is taken twice.
pub proof fn law_session_given_once(
    c: SessionCommand,
    args: Seq<Argument>,
    i: int,
    r: arguments::Refusals,
)
    requires
        0 <= i,
        i + 1 < args.len(),
        args[i + 1].text is Some,
        args[i + 1].refused == r,
        forall|kind: Kind| !r.of(kind),
    ensures
        ({
            let again = |flag: Flag|
                c.optioned(args, i, flag) == Err::<(int, SessionCommand), ArgumentError>(
                    ArgumentError::Duplicate(flag),
                );
            &&& c.list ==> again(Flag::List)
            &&& c.history is Some ==> again(Flag::History)
            &&& c.cwd is Some ==> again(Flag::Cwd)
            &&& c.resume is Some ==> again(Flag::Resume)
            &&& c.session_id is Some ==> again(Flag::SessionId)
            &&& c.agent_preset is Some ==> again(Flag::AgentPreset)
            &&& c.trust_workspace ==> again(Flag::TrustWorkspace)
            &&& c.output is Some ==> again(Flag::Output)
        }),
{
    assert(!r.of(Kind::Session));
    assert(!r.of(Kind::Preset));
}

/// Options that do not exclude each other are accepted as they are.
pub proof fn law_session_accepted(c: SessionCommand)
    ensures
        c.validated() is Ok ==> c.validated() == Ok::<SessionCommand, ArgumentError>(c),
        !c.list && c.history is None && c.resume is None ==> c.validated() is Ok,
        c.resume is Some && !c.list && c.history is None && c.session_id is None
            && c.agent_preset is None && !c.trust_workspace ==> c.validated() is Ok,
        (c.list || c.history is Some) && !(c.list && c.history is Some) && c.resume is None
            && c.cwd is None && c.session_id is None && c.agent_preset is None && !c.trust_workspace
            ==> c.validated() is Ok,
{
}

/// The fullscreen application takes what the others take, except for `--list`, `--history` and
/// `--output`, wherever they stand.
pub proof fn law_tui_options(args: Seq<Argument>)
    ensures
        (exists|i: int|
            0 <= i < args.len() && (#[trigger] args[i].is("--list"@) || args[i].is("--history"@)
                || args[i].is("--output"@))) ==> tui_parsed(args) == Err::<
            SessionCommand,
            ArgumentError,
        >(ArgumentError::TuiOption),
        (forall|i: int|
            0 <= i < args.len() ==> !(#[trigger] args[i].is("--list"@)) && !args[i].is("--history"@)
                && !args[i].is("--output"@)) ==> tui_parsed(args) == SessionCommand::parsed(args),
{
    if exists|i: int|
        0 <= i < args.len() && (#[trigger] args[i].is("--list"@) || args[i].is("--history"@)
            || args[i].is("--output"@)) {
        let i = choose|i: int|
            0 <= i < args.len() && (#[trigger] args[i].is("--list"@) || args[i].is("--history"@)
                || args[i].is("--output"@));
        assert(not_for_tui(args[i]));
    }
    if forall|i: int|
        0 <= i < args.len() ==> !(#[trigger] args[i].is("--list"@)) && !args[i].is("--history"@)
            && !args[i].is("--output"@) {
        assert forall|i: int| 0 <= i < args.len() implies !not_for_tui(#[trigger] args[i]) by {
            assert(!args[i].is("--list"@));
        }
    }
}

/// An argument that is not understood is told as it was given.
pub proof fn law_session_explained(args: Seq<Argument>, i: usize, detail: Seq<char>, kind: Kind)
    requires
        i < args.len(),
        args[i as int].text is Some,
    ensures
        session_explained(ArgumentError::Unknown(i), args, detail)
            == "unknown Session application argument `"@ + args[i as int].text->0@ + "`"@,
        session_explained(ArgumentError::Refused(kind, i), args, detail) == detail,
{
}

} // verus!
