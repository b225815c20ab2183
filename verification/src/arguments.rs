//! The grammar of application arguments.
//!
//! Paths and identifiers are referred to by the index of the argument that holds them. Whether a
//! text is an identifier of some kind is for the owner of that kind to say, so each argument
//! comes with what the owners say of it.
use vstd::prelude::*;
use vstd::string::*;
use vstd::utf8::*;
use crate::editor::MAX_TEXT;
use crate::errors::RsiError;
use crate::input::decode_text;
use crate::text;
use crate::text::{byte_len, cat3, same, starts_with};

verus! {

/// Help for the conversation applications.
pub const HELP: &'static str = "Session command options (headless):\n  --commands | --command INVOCATION_JSON | --command-status REQUEST_ID\n  --command may precede TASK; list and status do not submit a message.\nUsage:\nrsi --profile headless TASK|--stdin [--cwd PATH] [--resume SESSION|--session-id SESSION]\n[--message-id MESSAGE] [-i|--image PATH]... [--agent-preset ID]\n[--deployment ID --model ID] [--sandbox read-only|workspace-write|danger-full-access]\n[--trust-workspace] [--output text|jsonl]\nrsi --profile cli [--cwd PATH] [--resume SESSION|--history SESSION|--list|--session-id SESSION]\n[--agent-preset ID] [--trust-workspace] [--output text|jsonl]\nrsi --profile tui [--cwd PATH] [--resume SESSION|--session-id SESSION]\n[--agent-preset ID] [--trust-workspace]\n";

/// A kind of value that someone else decides on.
#[derive(Clone, Copy, Debug, PartialEq, Eq, Structural)]
pub enum Kind {
    Session,
    Message,
    Preset,
    Request,
    Invocation,
    Device,
    Label,
    Fiber,
    Offset,
}

/// Which owners refuse a text.
#[derive(Clone, Copy, Debug, PartialEq, Eq, Structural)]
pub struct Refusals {
    pub session: bool,
    pub message: bool,
    pub preset: bool,
    pub request: bool,
    pub invocation: bool,
    pub device: bool,
    pub label: bool,
    pub fiber: bool,
    pub offset: bool,
}

impl Refusals {
    pub open spec fn of(self, kind: Kind) -> bool {
        match kind {
            Kind::Session => self.session,
            Kind::Message => self.message,
            Kind::Preset => self.preset,
            Kind::Request => self.request,
            Kind::Invocation => self.invocation,
            Kind::Device => self.device,
            Kind::Label => self.label,
            Kind::Fiber => self.fiber,
            Kind::Offset => self.offset,
        }
    }

    /// Whether the owner of a kind refuses the text.
    pub fn refuses(&self, kind: Kind) -> (r: bool)
        ensures
            r == self.of(kind),
    {
        match kind {
            Kind::Session => self.session,
            Kind::Message => self.message,
            Kind::Preset => self.preset,
            Kind::Request => self.request,
            Kind::Invocation => self.invocation,
            Kind::Device => self.device,
            Kind::Label => self.label,
            Kind::Fiber => self.fiber,
            Kind::Offset => self.offset,
        }
    }

    /// No owner refuses.
    pub fn none() -> (r: Refusals)
        ensures
            forall|kind: Kind| !r.of(kind),
    {
        Refusals {
            session: false,
            message: false,
            preset: false,
            request: false,
            invocation: false,
            device: false,
            label: false,
            fiber: false,
            offset: false,
        }
    }
}

/// One argument of a command line. Without a text it is not UTF-8.
#[derive(Debug)]
pub struct Argument {
    pub text: Option<String>,
    pub refused: Refusals,
}

impl Argument {
    /// Whether the argument is this text.
    pub open spec fn is(&self, s: Seq<char>) -> bool {
        self.text matches Some(t) && t@ == s
    }
}

/// An option of the applications.
#[derive(Clone, Copy, Debug, PartialEq, Eq, Structural)]
pub enum Flag {
    Commands,
    Command,
    CommandStatus,
    Stdin,
    Cwd,
    Resume,
    SessionId,
    MessageId,
    Image,
    AgentPreset,
    TrustWorkspace,
    Deployment,
    Model,
    Sandbox,
    Output,
    Help,
    List,
    History,
}

/// Why arguments are not accepted.
#[derive(Clone, Copy, Debug, PartialEq, Eq, Structural)]
pub enum ArgumentError {
    /// The argument at this index must be UTF-8.
    NotUtf8(usize),
    /// The option needs a value.
    Missing(Flag),
    /// The option, or its like, was given before.
    Duplicate(Flag),
    /// The owner of this kind refuses the argument at this index.
    Refused(Kind, usize),
    /// The invocation is longer than its bound.
    InvocationBound,
    /// The option at this index is not known.
    Unknown(usize),
    SandboxMode,
    OutputMode,
    HelpRequested,
    SecondTask,
    TaskCount,
    TaskNotSubmitted,
    TaskOptions,
    ResumeAndSessionId,
    ResumeAndPreset,
    ResumeAndTrust,
    ModelPair,
    ModelRefused,
    ReadExclusive,
    ReadOnly,
    TuiOption,
    /// The words are none of the forms of this application.
    Form,
    /// The configuration revision is not a canonical number.
    Revision,
}

/// Where a tool may write.
#[derive(Clone, Copy, Debug, PartialEq, Eq, Structural)]
pub enum SandboxMode {
    ReadOnly,
    WorkspaceWrite,
    DangerFullAccess,
}

/// How results are written.
#[derive(Clone, Copy, Debug, PartialEq, Eq, Structural)]
pub enum OutputMode {
    Text,
    Jsonl,
}

/// A Session command operation.
#[derive(Clone, Copy, Debug, PartialEq, Eq, Structural)]
pub enum Extension {
    List,
    /// The invocation at this index.
    Execute(usize),
    /// The request at this index.
    Status(usize),
}

impl Extension {
    /// Only an execution can go before a task.
    pub open spec fn validated(self, has_task: bool) -> Result<(), ArgumentError> {
        if has_task && !(self is Execute) {
            Err(ArgumentError::TaskNotSubmitted)
        } else {
            Ok(())
        }
    }

    pub fn validate(&self, has_task: bool) -> (r: Result<(), ArgumentError>)
        ensures
            r == self.validated(has_task),
    {
        match self {
            Extension::Execute(_) => Ok(()),
            _ => if has_task {
                Err(ArgumentError::TaskNotSubmitted)
            } else {
                Ok(())
            },
        }
    }
}

/// The value behind the option at index `i`: the index of the next argument.
pub open spec fn value_at(args: Seq<Argument>, i: int, flag: Flag) -> Result<int, ArgumentError> {
    if i + 1 < args.len() {
        Ok(i + 1)
    } else {
        Err(ArgumentError::Missing(flag))
    }
}

/// A value that must be a text.
pub open spec fn text_value_at(args: Seq<Argument>, i: int, flag: Flag) -> Result<
    int,
    ArgumentError,
> {
    match value_at(args, i, flag) {
        Ok(j) => if args[j].text is Some {
            Ok(j)
        } else {
            Err(ArgumentError::NotUtf8(j as usize))
        },
        Err(e) => Err(e),
    }
}

/// A value that must be an identifier of a kind.
pub open spec fn kind_value_at(args: Seq<Argument>, i: int, flag: Flag, kind: Kind) -> Result<
    int,
    ArgumentError,
> {
    match text_value_at(args, i, flag) {
        Ok(j) => if args[j].refused.of(kind) {
            Err(ArgumentError::Refused(kind, j as usize))
        } else {
            Ok(j)
        },
        Err(e) => Err(e),
    }
}

pub(crate) fn value(args: &Vec<Argument>, i: usize, flag: Flag) -> (r: Result<usize, ArgumentError>)
    requires
        i < args@.len(),
    ensures
        match r {
            Ok(j) => value_at(args@, i as int, flag) == Ok::<int, ArgumentError>(j as int) && j == i
                + 1 && j < args@.len(),
            Err(e) => value_at(args@, i as int, flag) == Err::<int, ArgumentError>(e),
        },
{
    if args.len() - i > 1 {
        Ok(i + 1)
    } else {
        Err(ArgumentError::Missing(flag))
    }
}

pub(crate) fn text_value(args: &Vec<Argument>, i: usize, flag: Flag) -> (r: Result<
    usize,
    ArgumentError,
>)
    requires
        i < args@.len(),
    ensures
        match r {
            Ok(j) => text_value_at(args@, i as int, flag) == Ok::<int, ArgumentError>(j as int) && j
                == i + 1 && j < args@.len() && args@[j as int].text is Some,
            Err(e) => text_value_at(args@, i as int, flag) == Err::<int, ArgumentError>(e),
        },
{
    match value(args, i, flag) {
        Ok(j) => if args[j].text.is_some() {
            Ok(j)
        } else {
            Err(ArgumentError::NotUtf8(j))
        },
        Err(e) => Err(e),
    }
}

pub(crate) fn kind_value(args: &Vec<Argument>, i: usize, flag: Flag, kind: Kind) -> (r: Result<
    usize,
    ArgumentError,
>)
    requires
        i < args@.len(),
    ensures
        match r {
            Ok(j) => kind_value_at(args@, i as int, flag, kind) == Ok::<int, ArgumentError>(
                j as int,
            ) && j == i + 1 && j < args@.len(),
            Err(e) => kind_value_at(args@, i as int, flag, kind) == Err::<int, ArgumentError>(e),
        },
{
    match text_value(args, i, flag) {
        Ok(j) => if args[j].refused.refuses(kind) {
            Err(ArgumentError::Refused(kind, j))
        } else {
            Ok(j)
        },
        Err(e) => Err(e),
    }
}

/// The sandbox mode that a word names.
pub open spec fn sandbox_named(s: Seq<char>) -> Option<SandboxMode> {
    if s == "read-only"@ {
        Some(SandboxMode::ReadOnly)
    } else if s == "workspace-write"@ {
        Some(SandboxMode::WorkspaceWrite)
    } else if s == "danger-full-access"@ {
        Some(SandboxMode::DangerFullAccess)
    } else {
        None
    }
}

pub fn sandbox_value(word: &str) -> (r: Option<SandboxMode>)
    ensures
        r == sandbox_named(word@),
{
    if same(word, "read-only") {
        Some(SandboxMode::ReadOnly)
    } else if same(word, "workspace-write") {
        Some(SandboxMode::WorkspaceWrite)
    } else if same(word, "danger-full-access") {
        Some(SandboxMode::DangerFullAccess)
    } else {
        None
    }
}

/// The output mode that a word names.
pub open spec fn output_named(s: Seq<char>) -> Option<OutputMode> {
    if s == "text"@ {
        Some(OutputMode::Text)
    } else if s == "jsonl"@ {
        Some(OutputMode::Jsonl)
    } else {
        None
    }
}

pub fn output_value(word: &str) -> (r: Option<OutputMode>)
    ensures
        r == output_named(word@),
{
    if same(word, "text") {
        Some(OutputMode::Text)
    } else if same(word, "jsonl") {
        Some(OutputMode::Jsonl)
    } else {
        None
    }
}

/// The option of the headless application that a word names.
pub open spec fn headless_named(s: Seq<char>) -> Option<Flag> {
    if s == "--commands"@ {
        Some(Flag::Commands)
    } else if s == "--command"@ {
        Some(Flag::Command)
    } else if s == "--command-status"@ {
        Some(Flag::CommandStatus)
    } else if s == "--stdin"@ {
        Some(Flag::Stdin)
    } else if s == "--cwd"@ {
        Some(Flag::Cwd)
    } else if s == "--resume"@ {
        Some(Flag::Resume)
    } else if s == "--session-id"@ {
        Some(Flag::SessionId)
    } else if s == "--message-id"@ {
        Some(Flag::MessageId)
    } else if s == "-i"@ || s == "--image"@ {
        Some(Flag::Image)
    } else if s == "--agent-preset"@ {
        Some(Flag::AgentPreset)
    } else if s == "--trust-workspace"@ {
        Some(Flag::TrustWorkspace)
    } else if s == "--deployment"@ {
        Some(Flag::Deployment)
    } else if s == "--model"@ {
        Some(Flag::Model)
    } else if s == "--sandbox"@ {
        Some(Flag::Sandbox)
    } else if s == "--output"@ {
        Some(Flag::Output)
    } else if s == "-h"@ || s == "--help"@ {
        Some(Flag::Help)
    } else {
        None
    }
}

fn headless_flag(word: &str) -> (r: Option<Flag>)
    ensures
        r == headless_named(word@),
{
    if same(word, "--commands") {
        Some(Flag::Commands)
    } else if same(word, "--command") {
        Some(Flag::Command)
    } else if same(word, "--command-status") {
        Some(Flag::CommandStatus)
    } else if same(word, "--stdin") {
        Some(Flag::Stdin)
    } else if same(word, "--cwd") {
        Some(Flag::Cwd)
    } else if same(word, "--resume") {
        Some(Flag::Resume)
    } else if same(word, "--session-id") {
        Some(Flag::SessionId)
    } else if same(word, "--message-id") {
        Some(Flag::MessageId)
    } else if same(word, "-i") || same(word, "--image") {
        Some(Flag::Image)
    } else if same(word, "--agent-preset") {
        Some(Flag::AgentPreset)
    } else if same(word, "--trust-workspace") {
        Some(Flag::TrustWorkspace)
    } else if same(word, "--deployment") {
        Some(Flag::Deployment)
    } else if same(word, "--model") {
        Some(Flag::Model)
    } else if same(word, "--sandbox") {
        Some(Flag::Sandbox)
    } else if same(word, "--output") {
        Some(Flag::Output)
    } else if same(word, "-h") || same(word, "--help") {
        Some(Flag::Help)
    } else {
        None
    }
}

/// What the headless application was asked to do. Numbers are indices of arguments.
#[derive(Debug)]
pub struct Command {
    pub extension: Option<Extension>,
    pub positional: Option<usize>,
    pub stdin: bool,
    pub cwd: Option<usize>,
    pub resume: Option<usize>,
    pub session_id: Option<usize>,
    pub message_id: Option<usize>,
    pub images: Vec<usize>,
    pub agent_preset: Option<usize>,
    pub trust_workspace: bool,
    pub deployment: Option<usize>,
    pub model: Option<usize>,
    pub sandbox: Option<SandboxMode>,
    pub output: Option<OutputMode>,
}

/// What a [`Command`] says.
#[verifier::ext_equal]
pub struct CommandView {
    pub extension: Option<Extension>,
    pub positional: Option<usize>,
    pub stdin: bool,
    pub cwd: Option<usize>,
    pub resume: Option<usize>,
    pub session_id: Option<usize>,
    pub message_id: Option<usize>,
    pub images: Seq<usize>,
    pub agent_preset: Option<usize>,
    pub trust_workspace: bool,
    pub deployment: Option<usize>,
    pub model: Option<usize>,
    pub sandbox: Option<SandboxMode>,
    pub output: Option<OutputMode>,
}

impl View for Command {
    type V = CommandView;

    open spec fn view(&self) -> CommandView {
        CommandView {
            extension: self.extension,
            positional: self.positional,
            stdin: self.stdin,
            cwd: self.cwd,
            resume: self.resume,
            session_id: self.session_id,
            message_id: self.message_id,
            images: self.images@,
            agent_preset: self.agent_preset,
            trust_workspace: self.trust_workspace,
            deployment: self.deployment,
            model: self.model,
            sandbox: self.sandbox,
            output: self.output,
        }
    }
}

/// An option that takes one value may be given once: the value is read first.
pub open spec fn once<T>(
    held: Option<usize>,
    found: Result<int, ArgumentError>,
    flag: Flag,
    set: spec_fn(usize) -> T,
) -> Result<(int, T), ArgumentError> {
    match found {
        Ok(j) => if held is Some {
            Err(ArgumentError::Duplicate(flag))
        } else {
            Ok((j + 1, set(j as usize)))
        },
        Err(e) => Err(e),
    }
}

/// A Session command operation and the argument behind it.
pub open spec fn extension_at(args: Seq<Argument>, i: int, flag: Flag, bound: int) -> Result<
    (int, Extension),
    ArgumentError,
> {
    match flag {
        Flag::Command => match text_value_at(args, i, flag) {
            Ok(j) => if text::size(args[j].text->0@) > bound {
                Err(ArgumentError::InvocationBound)
            } else if args[j].refused.invocation {
                Err(ArgumentError::Refused(Kind::Invocation, j as usize))
            } else {
                Ok((j + 1, Extension::Execute(j as usize)))
            },
            Err(e) => Err(e),
        },
        Flag::CommandStatus => match kind_value_at(args, i, flag, Kind::Request) {
            Ok(j) => Ok((j + 1, Extension::Status(j as usize))),
            Err(e) => Err(e),
        },
        _ => Ok((i + 1, Extension::List)),
    }
}

impl CommandView {
    pub open spec fn empty() -> CommandView {
        CommandView {
            extension: None,
            positional: None,
            stdin: false,
            cwd: None,
            resume: None,
            session_id: None,
            message_id: None,
            images: seq![],
            agent_preset: None,
            trust_workspace: false,
            deployment: None,
            model: None,
            sandbox: None,
            output: None,
        }
    }

    /// What the option at index `i` does: the index behind it and its values.
    pub open spec fn optioned(self, args: Seq<Argument>, i: int, flag: Flag, bound: int) -> Result<
        (int, CommandView),
        ArgumentError,
    > {
        let c = self;
        match flag {
            Flag::Commands | Flag::Command | Flag::CommandStatus => match extension_at(
                args,
                i,
                flag,
                bound,
            ) {
                Ok((j, extension)) => if c.extension is Some {
                    Err(ArgumentError::Duplicate(flag))
                } else {
                    Ok((j, CommandView { extension: Some(extension), ..c }))
                },
                Err(e) => Err(e),
            },
            Flag::Stdin => if c.stdin {
                Err(ArgumentError::Duplicate(flag))
            } else {
                Ok((i + 1, CommandView { stdin: true, ..c }))
            },
            Flag::Cwd => once(
                c.cwd,
                value_at(args, i, flag),
                flag,
                |j: usize| CommandView { cwd: Some(j), ..c },
            ),
            Flag::Resume => once(
                c.resume,
                kind_value_at(args, i, flag, Kind::Session),
                flag,
                |j: usize| CommandView { resume: Some(j), ..c },
            ),
            Flag::SessionId => once(
                c.session_id,
                kind_value_at(args, i, flag, Kind::Session),
                flag,
                |j: usize| CommandView { session_id: Some(j), ..c },
            ),
            Flag::MessageId => once(
                c.message_id,
                kind_value_at(args, i, flag, Kind::Message),
                flag,
                |j: usize| CommandView { message_id: Some(j), ..c },
            ),
            Flag::Image => match value_at(args, i, flag) {
                Ok(j) => Ok((j + 1, CommandView { images: c.images.push(j as usize), ..c })),
                Err(e) => Err(e),
            },
            Flag::AgentPreset => once(
                c.agent_preset,
                kind_value_at(args, i, flag, Kind::Preset),
                flag,
                |j: usize| CommandView { agent_preset: Some(j), ..c },
            ),
            Flag::TrustWorkspace => if c.trust_workspace {
                Err(ArgumentError::Duplicate(flag))
            } else {
                Ok((i + 1, CommandView { trust_workspace: true, ..c }))
            },
            Flag::Deployment => once(
                c.deployment,
                text_value_at(args, i, flag),
                flag,
                |j: usize| CommandView { deployment: Some(j), ..c },
            ),
            Flag::Model => once(
                c.model,
                text_value_at(args, i, flag),
                flag,
                |j: usize| CommandView { model: Some(j), ..c },
            ),
            Flag::Sandbox => if c.sandbox is Some {
                Err(ArgumentError::Duplicate(flag))
            } else {
                match text_value_at(args, i, flag) {
                    Ok(j) => match sandbox_named(args[j].text->0@) {
                        Some(mode) => Ok((j + 1, CommandView { sandbox: Some(mode), ..c })),
                        None => Err(ArgumentError::SandboxMode),
                    },
                    Err(e) => Err(e),
                }
            },
            Flag::Output => if c.output is Some {
                Err(ArgumentError::Duplicate(flag))
            } else {
                match text_value_at(args, i, flag) {
                    Ok(j) => match output_named(args[j].text->0@) {
                        Some(mode) => Ok((j + 1, CommandView { output: Some(mode), ..c })),
                        None => Err(ArgumentError::OutputMode),
                    },
                    Err(e) => Err(e),
                }
            },
            _ => Err(ArgumentError::HelpRequested),
        }
    }

    /// What the arguments from index `i` on say. Behind a lone `--` everything is a task.
    pub open spec fn scanned(self, args: Seq<Argument>, i: int, literal: bool, bound: int) -> Result<
        CommandView,
        ArgumentError,
    >
        decreases args.len() - i,
    {
        if i >= args.len() {
            Ok(self)
        } else {
            match args[i].text {
                None => Err(ArgumentError::NotUtf8(i as usize)),
                Some(t) => if !literal && t@ == "--"@ {
                    self.scanned(args, i + 1, true, bound)
                } else if !literal && text::begins(t@, "-"@) {
                    match headless_named(t@) {
                        None => Err(ArgumentError::Unknown(i as usize)),
                        Some(flag) => match self.optioned(args, i, flag, bound) {
                            Ok((j, c)) => if j > i {
                                c.scanned(args, j, literal, bound)
                            } else {
                                Ok(c)
                            },
                            Err(e) => Err(e),
                        },
                    }
                } else if self.positional is Some {
                    Err(ArgumentError::SecondTask)
                } else {
                    CommandView { positional: Some(i as usize), ..self }.scanned(
                        args,
                        i + 1,
                        literal,
                        bound,
                    )
                },
            }
        }
    }

    /// Whether there is a task to submit.
    pub open spec fn has_task(self) -> bool {
        self.stdin || self.positional is Some
    }

    /// Which options exclude or need each other, in the order in which they are checked.
    pub open spec fn validated(self, model_refused: bool) -> Result<(), ArgumentError> {
        if (self.stdin && self.positional is Some) || (!self.has_task() && self.extension is None) {
            Err(ArgumentError::TaskCount)
        } else if self.extension is Some && self.extension->0.validated(self.has_task()) is Err {
            self.extension->0.validated(self.has_task())
        } else if self.extension is Some && !self.has_task() && (self.images.len() > 0
            || self.message_id is Some || self.deployment is Some || self.model is Some
            || self.sandbox is Some) {
            Err(ArgumentError::TaskOptions)
        } else if self.resume is Some && self.session_id is Some {
            Err(ArgumentError::ResumeAndSessionId)
        } else if self.resume is Some && self.agent_preset is Some {
            Err(ArgumentError::ResumeAndPreset)
        } else if self.resume is Some && self.trust_workspace {
            Err(ArgumentError::ResumeAndTrust)
        } else if (self.deployment is Some) != (self.model is Some) {
            Err(ArgumentError::ModelPair)
        } else if self.deployment is Some && self.model is Some && model_refused {
            Err(ArgumentError::ModelRefused)
        } else {
            Ok(())
        }
    }

    /// The whole grammar.
    pub open spec fn parsed(args: Seq<Argument>, bound: int, model_refused: bool) -> Result<
        CommandView,
        ArgumentError,
    > {
        match CommandView::empty().scanned(args, 0, false, bound) {
            Ok(c) => match c.validated(model_refused) {
                Ok(_) => Ok(c),
                Err(e) => Err(e),
            },
            Err(e) => Err(e),
        }
    }
}

/// The session a command works on.
#[derive(Clone, Copy, Debug, PartialEq, Eq, Structural)]
pub enum Selection {
    /// A new session, in the current directory where none is given.
    Fresh {
        cwd: Option<usize>,
        session_id: Option<usize>,
        agent_preset: Option<usize>,
        trusted: bool,
    },
    /// An existing session.
    Resume { session: usize, cwd: Option<usize> },
}

/// Where the task of a command comes from.
#[derive(Clone, Copy, Debug, PartialEq, Eq, Structural)]
pub enum TaskSource {
    Argument(usize),
    Stdin,
    Nothing,
}

/// What became of an attempt to set an option once.
fn set_once(slot: &mut Option<usize>, found: usize, flag: Flag) -> (r: Result<usize, ArgumentError>)
    requires
        found < usize::MAX,
    ensures
        match r {
            Ok(next) => *old(slot) is None && *final(slot) == Some(found) && next == found + 1,
            Err(e) => *old(slot) is Some && e == ArgumentError::Duplicate(flag) && *final(slot)
                == *old(slot),
        },
{
    if slot.is_some() {
        return Err(ArgumentError::Duplicate(flag));
    }
    *slot = Some(found);
    Ok(found + 1)
}

/// Reads a Session command operation and the argument behind it.
fn extension_value(args: &Vec<Argument>, i: usize, flag: Flag, bound: usize) -> (r: Result<
    (usize, Extension),
    ArgumentError,
>)
    requires
        i < args@.len(),
    ensures
        match r {
            Ok((j, x)) => extension_at(args@, i as int, flag, bound as int) == Ok::<
                (int, Extension),
                ArgumentError,
            >((j as int, x)) && i < j <= args@.len(),
            Err(e) => extension_at(args@, i as int, flag, bound as int) == Err::<
                (int, Extension),
                ArgumentError,
            >(e),
        },
{
    let total: usize = args.len();
    match flag {
        Flag::Command => match text_value(args, i, flag) {
            Ok(j) => match &args[j].text {
                Some(source) => if byte_len(source.as_str()) > bound {
                    Err(ArgumentError::InvocationBound)
                } else if args[j].refused.invocation {
                    Err(ArgumentError::Refused(Kind::Invocation, j))
                } else {
                    Ok((j + 1, Extension::Execute(j)))
                },
                None => Err(ArgumentError::NotUtf8(j)),
            },
            Err(e) => Err(e),
        },
        Flag::CommandStatus => match kind_value(args, i, flag, Kind::Request) {
            Ok(j) => Ok((j + 1, Extension::Status(j))),
            Err(e) => Err(e),
        },
        _ => Ok((i + 1, Extension::List)),
    }
}

impl Command {
    fn empty() -> (c: Command)
        ensures
            c@ == CommandView::empty(),
    {
        let c = Command {
            extension: None,
            positional: None,
            stdin: false,
            cwd: None,
            resume: None,
            session_id: None,
            message_id: None,
            images: Vec::new(),
            agent_preset: None,
            trust_workspace: false,
            deployment: None,
            model: None,
            sandbox: None,
            output: None,
        };
        proof {
            assert(c@ =~= CommandView::empty());
        }
        c
    }

    /// Takes the option at index `i` and its value.
    fn option(&mut self, args: &Vec<Argument>, i: usize, flag: Flag, bound: usize) -> (r: Result<
        usize,
        ArgumentError,
    >)
        requires
            i < args@.len(),
        ensures
            match r {
                Ok(j) => i < j <= args@.len() && old(self)@.optioned(
                    args@,
                    i as int,
                    flag,
                    bound as int,
                ) == Ok::<(int, CommandView), ArgumentError>((j as int, final(self)@)),
                Err(e) => old(self)@.optioned(args@, i as int, flag, bound as int) == Err::<
                    (int, CommandView),
                    ArgumentError,
                >(e),
            },
    {
        let ghost c = self@;
        let total: usize = args.len();
        let r: Result<usize, ArgumentError> = match flag {
            Flag::Commands | Flag::Command | Flag::CommandStatus => match extension_value(
                args,
                i,
                flag,
                bound,
            ) {
                Ok((j, extension)) => if self.extension.is_some() {
                    Err(ArgumentError::Duplicate(flag))
                } else {
                    self.extension = Some(extension);
                    Ok(j)
                },
                Err(e) => Err(e),
            },
            Flag::Stdin => if self.stdin {
                Err(ArgumentError::Duplicate(flag))
            } else {
                self.stdin = true;
                Ok(i + 1)
            },
            Flag::Cwd => match value(args, i, flag) {
                Ok(j) => set_once(&mut self.cwd, j, flag),
                Err(e) => Err(e),
            },
            Flag::Resume => match kind_value(args, i, flag, Kind::Session) {
                Ok(j) => set_once(&mut self.resume, j, flag),
                Err(e) => Err(e),
            },
            Flag::SessionId => match kind_value(args, i, flag, Kind::Session) {
                Ok(j) => set_once(&mut self.session_id, j, flag),
                Err(e) => Err(e),
            },
            Flag::MessageId => match kind_value(args, i, flag, Kind::Message) {
                Ok(j) => set_once(&mut self.message_id, j, flag),
                Err(e) => Err(e),
            },
            Flag::Image => match value(args, i, flag) {
                Ok(j) => {
                    self.images.push(j);
                    Ok(j + 1)
                },
                Err(e) => Err(e),
            },
            Flag::AgentPreset => match kind_value(args, i, flag, Kind::Preset) {
                Ok(j) => set_once(&mut self.agent_preset, j, flag),
                Err(e) => Err(e),
            },
            Flag::Deployment => match text_value(args, i, flag) {
                Ok(j) => set_once(&mut self.deployment, j, flag),
                Err(e) => Err(e),
            },
            Flag::Model => match text_value(args, i, flag) {
                Ok(j) => set_once(&mut self.model, j, flag),
                Err(e) => Err(e),
            },
            Flag::TrustWorkspace => if self.trust_workspace {
                Err(ArgumentError::Duplicate(flag))
            } else {
                self.trust_workspace = true;
                Ok(i + 1)
            },
            Flag::Sandbox => if self.sandbox.is_some() {
                Err(ArgumentError::Duplicate(flag))
            } else {
                match text_value(args, i, flag) {
                    Ok(j) => match &args[j].text {
                        Some(word) => match sandbox_value(word.as_str()) {
                            Some(mode) => {
                                self.sandbox = Some(mode);
                                Ok(j + 1)
                            },
                            None => Err(ArgumentError::SandboxMode),
                        },
                        None => Err(ArgumentError::NotUtf8(j)),
                    },
                    Err(e) => Err(e),
                }
            },
            Flag::Output => if self.output.is_some() {
                Err(ArgumentError::Duplicate(flag))
            } else {
                match text_value(args, i, flag) {
                    Ok(j) => match &args[j].text {
                        Some(word) => match output_value(word.as_str()) {
                            Some(mode) => {
                                self.output = Some(mode);
                                Ok(j + 1)
                            },
                            None => Err(ArgumentError::OutputMode),
                        },
                        None => Err(ArgumentError::NotUtf8(j)),
                    },
                    Err(e) => Err(e),
                }
            },
            _ => Err(ArgumentError::HelpRequested),
        };
        proof {
            if let Ok(j) = r {
                let expected = c.optioned(args@, i as int, flag, bound as int);
                assert(expected is Ok);
                assert(self@ =~= expected->Ok_0.1);
            }
        }
        r
    }

    /// Reads the arguments without holding the options against each other. An invocation may
    /// have at most `bound` bytes.
    pub fn scan(args: &Vec<Argument>, bound: usize) -> (r: Result<Command, ArgumentError>)
        ensures
            match r {
                Ok(c) => CommandView::empty().scanned(args@, 0, false, bound as int) == Ok::<
                    CommandView,
                    ArgumentError,
                >(c@),
                Err(e) => CommandView::empty().scanned(args@, 0, false, bound as int) == Err::<
                    CommandView,
                    ArgumentError,
                >(e),
            },
    {
        let mut c = Command::empty();
        let mut i: usize = 0;
        let mut literal: bool = false;
        let ghost expected = CommandView::empty().scanned(args@, 0, false, bound as int);
        while i < args.len()
            invariant
                i <= args@.len(),
                expected == CommandView::empty().scanned(args@, 0, false, bound as int),
                c@.scanned(args@, i as int, literal, bound as int) == expected,
            decreases args@.len() - i,
        {
            let ghost before = c@;
            match &args[i].text {
                None => {
                    return Err(ArgumentError::NotUtf8(i));
                },
                Some(word) => {
                    let word: &str = word.as_str();
                    if !literal && same(word, "--") {
                        literal = true;
                        i += 1;
                    } else if !literal && starts_with(word, "-") {
                        match headless_flag(word) {
                            None => {
                                return Err(ArgumentError::Unknown(i));
                            },
                            Some(flag) => match c.option(args, i, flag, bound) {
                                Ok(j) => {
                                    i = j;
                                },
                                Err(e) => {
                                    return Err(e);
                                },
                            },
                        }
                    } else {
                        if c.positional.is_some() {
                            return Err(ArgumentError::SecondTask);
                        }
                        c.positional = Some(i);
                        proof {
                            assert(c@ =~= CommandView { positional: Some(i), ..before });
                        }
                        i += 1;
                    }
                },
            }
        }
        Ok(c)
    }

    /// Holds the options against each other. Whether deployment and model name a model is for
    /// the owner of models to say.
    pub fn validate(&self, model_refused: bool) -> (r: Result<(), ArgumentError>)
        ensures
            r == self@.validated(model_refused),
    {
        let has_task: bool = self.stdin || self.positional.is_some();
        if (self.stdin && self.positional.is_some()) || (!has_task && self.extension.is_none()) {
            return Err(ArgumentError::TaskCount);
        }
        if let Some(extension) = &self.extension {
            if let Err(e) = extension.validate(has_task) {
                return Err(e);
            }
            if !has_task && (self.images.len() > 0 || self.message_id.is_some()
                || self.deployment.is_some() || self.model.is_some() || self.sandbox.is_some()) {
                return Err(ArgumentError::TaskOptions);
            }
        }
        if self.resume.is_some() && self.session_id.is_some() {
            return Err(ArgumentError::ResumeAndSessionId);
        }
        if self.resume.is_some() && self.agent_preset.is_some() {
            return Err(ArgumentError::ResumeAndPreset);
        }
        if self.resume.is_some() && self.trust_workspace {
            return Err(ArgumentError::ResumeAndTrust);
        }
        if self.deployment.is_some() != self.model.is_some() {
            return Err(ArgumentError::ModelPair);
        }
        if self.deployment.is_some() && self.model.is_some() && model_refused {
            return Err(ArgumentError::ModelRefused);
        }
        Ok(())
    }

    /// Reads the arguments of the headless application.
    pub fn parse(args: &Vec<Argument>, bound: usize, model_refused: bool) -> (r: Result<
        Command,
        ArgumentError,
    >)
        ensures
            match r {
                Ok(c) => CommandView::parsed(args@, bound as int, model_refused) == Ok::<
                    CommandView,
                    ArgumentError,
                >(c@),
                Err(e) => CommandView::parsed(args@, bound as int, model_refused) == Err::<
                    CommandView,
                    ArgumentError,
                >(e),
            },
    {
        match Command::scan(args, bound) {
            Ok(c) => match c.validate(model_refused) {
                Ok(_) => Ok(c),
                Err(e) => Err(e),
            },
            Err(e) => Err(e),
        }
    }

    /// Where the task comes from: an argument goes before standard input.
    pub fn task(&self) -> (r: TaskSource)
        ensures
            r == (match self.positional {
                Some(i) => TaskSource::Argument(i),
                None => if self.stdin {
                    TaskSource::Stdin
                } else {
                    TaskSource::Nothing
                },
            }),
    {
        match self.positional {
            Some(i) => TaskSource::Argument(i),
            None => if self.stdin {
                TaskSource::Stdin
            } else {
                TaskSource::Nothing
            },
        }
    }

    /// The session that the turn runs in.
    pub fn session(&self) -> (r: Selection)
        ensures
            r == (match self.resume {
                Some(session) => Selection::Resume { session, cwd: self.cwd },
                None => Selection::Fresh {
                    cwd: self.cwd,
                    session_id: self.session_id,
                    agent_preset: self.agent_preset,
                    trusted: self.trust_workspace,
                },
            }),
    {
        match self.resume {
            Some(session) => Selection::Resume { session, cwd: self.cwd },
            None => Selection::Fresh {
                cwd: self.cwd,
                session_id: self.session_id,
                agent_preset: self.agent_preset,
                trusted: self.trust_workspace,
            },
        }
    }

    /// How results are written: as text unless another mode was chosen.
    pub fn output_mode(&self) -> (r: OutputMode)
        ensures
            r == (if self.output is Some { self.output->0 } else { OutputMode::Text }),
    {
        match self.output {
            Some(mode) => mode,
            None => OutputMode::Text,
        }
    }
}

/// Why a task from standard input is not accepted.
#[derive(Clone, Copy, Debug, PartialEq, Eq, Structural)]
pub enum StdinError {
    TooLarge,
    NotUtf8,
}

/// A task read from standard input: at most the bytes of one turn, and UTF-8.
pub fn stdin_task(input: Vec<u8>) -> (r: Result<String, StdinError>)
    ensures
        match r {
            Ok(task) => input@.len() <= MAX_TEXT && valid_utf8(input@) && task@ == decode_utf8(
                input@,
            ),
            Err(StdinError::TooLarge) => input@.len() > MAX_TEXT,
            Err(StdinError::NotUtf8) => input@.len() <= MAX_TEXT && !valid_utf8(input@),
        },
{
    if input.len() > MAX_TEXT {
        return Err(StdinError::TooLarge);
    }
    match decode_text(input) {
        Some(task) => {
            proof {
                encode_utf8_decode_utf8(task@);
            }
            Ok(task)
        },
        None => Err(StdinError::NotUtf8),
    }
}

/// An accepted command has exactly one task or a Session command operation, and no options that
/// exclude each other.
pub proof fn law_headless_exclusive(args: Seq<Argument>, bound: int, model_refused: bool)
    requires
        CommandView::parsed(args, bound, model_refused) is Ok,
    ensures
        ({
            let c = CommandView::parsed(args, bound, model_refused)->Ok_0;
            &&& !(c.stdin && c.positional is Some)
            &&& c.has_task() || c.extension is Some
            &&& c.has_task() && c.extension is Some ==> c.extension->0 is Execute
            &&& c.resume is Some ==> c.session_id is None && c.agent_preset is None
                && !c.trust_workspace
            &&& (c.deployment is Some) == (c.model is Some)
            &&& !c.has_task() ==> c.images.len() == 0 && c.message_id is None && c.model is None
                && c.sandbox is None
        }),
{
}

impl Flag {
    /// The option as it is written.
    pub open spec fn spelled(self) -> Seq<char> {
        match self {
            Flag::Commands => "--commands"@,
            Flag::Command => "--command"@,
            Flag::CommandStatus => "--command-status"@,
            Flag::Stdin => "--stdin"@,
            Flag::Cwd => "--cwd"@,
            Flag::Resume => "--resume"@,
            Flag::SessionId => "--session-id"@,
            Flag::MessageId => "--message-id"@,
            Flag::Image => "--image"@,
            Flag::AgentPreset => "--agent-preset"@,
            Flag::TrustWorkspace => "--trust-workspace"@,
            Flag::Deployment => "--deployment"@,
            Flag::Model => "--model"@,
            Flag::Sandbox => "--sandbox"@,
            Flag::Output => "--output"@,
            Flag::Help => "--help"@,
            Flag::List => "--list"@,
            Flag::History => "--history"@,
        }
    }

    pub fn name(&self) -> (r: &'static str)
        ensures
            r@ == self.spelled(),
    {
        match self {
            Flag::Commands => "--commands",
            Flag::Command => "--command",
            Flag::CommandStatus => "--command-status",
            Flag::Stdin => "--stdin",
            Flag::Cwd => "--cwd",
            Flag::Resume => "--resume",
            Flag::SessionId => "--session-id",
            Flag::MessageId => "--message-id",
            Flag::Image => "--image",
            Flag::AgentPreset => "--agent-preset",
            Flag::TrustWorkspace => "--trust-workspace",
            Flag::Deployment => "--deployment",
            Flag::Model => "--model",
            Flag::Sandbox => "--sandbox",
            Flag::Output => "--output",
            Flag::Help => "--help",
            Flag::List => "--list",
            Flag::History => "--history",
        }
    }
}

impl ArgumentError {
    /// The sentence that explains an error by itself.
    pub open spec fn sentence(self) -> Option<Seq<char>> {
        match self {
            ArgumentError::InvocationBound => Some("command JSON exceeds its bound"@),
            ArgumentError::SandboxMode => Some("invalid --sandbox mode"@),
            ArgumentError::OutputMode => Some("invalid --output mode"@),
            ArgumentError::HelpRequested => Some("help is handled before application preparation"@),
            ArgumentError::SecondTask => Some("exactly one task positional is allowed"@),
            ArgumentError::TaskCount => Some("provide exactly one task positional or --stdin"@),
            ArgumentError::TaskNotSubmitted => Some("--commands and --command-status cannot submit a task"@),
            ArgumentError::TaskOptions => Some("message, image, model and sandbox options require a task"@),
            ArgumentError::ResumeAndSessionId => Some("--resume and --session-id are mutually exclusive"@),
            ArgumentError::ResumeAndPreset => Some("--resume and --agent-preset are mutually exclusive"@),
            ArgumentError::ResumeAndTrust => Some("--trust-workspace cannot change an existing Session's immutable authority"@),
            ArgumentError::ModelPair => Some("--deployment and --model must be supplied together"@),
            ArgumentError::ReadExclusive => Some("--list, --history and --resume are mutually exclusive"@),
            ArgumentError::ReadOnly => Some("read-only Session commands cannot change creation settings"@),
            ArgumentError::TuiOption => Some("tui uses its action menu for listing and history; --output is unavailable"@),
            ArgumentError::Revision => Some("configuration revision must be a canonical u64 decimal from configuration list"@),
            _ => None,
        }
    }

    fn fixed(&self) -> (r: Option<&'static str>)
        ensures
            match r {
                Some(t) => self.sentence() == Some(t@),
                None => self.sentence() is None,
            },
    {
        match self {
            ArgumentError::InvocationBound => Some("command JSON exceeds its bound"),
            ArgumentError::SandboxMode => Some("invalid --sandbox mode"),
            ArgumentError::OutputMode => Some("invalid --output mode"),
            ArgumentError::HelpRequested => Some("help is handled before application preparation"),
            ArgumentError::SecondTask => Some("exactly one task positional is allowed"),
            ArgumentError::TaskCount => Some("provide exactly one task positional or --stdin"),
            ArgumentError::TaskNotSubmitted => Some("--commands and --command-status cannot submit a task"),
            ArgumentError::TaskOptions => Some("message, image, model and sandbox options require a task"),
            ArgumentError::ResumeAndSessionId => Some("--resume and --session-id are mutually exclusive"),
            ArgumentError::ResumeAndPreset => Some("--resume and --agent-preset are mutually exclusive"),
            ArgumentError::ResumeAndTrust => Some("--trust-workspace cannot change an existing Session's immutable authority"),
            ArgumentError::ModelPair => Some("--deployment and --model must be supplied together"),
            ArgumentError::ReadExclusive => Some("--list, --history and --resume are mutually exclusive"),
            ArgumentError::ReadOnly => Some("read-only Session commands cannot change creation settings"),
            ArgumentError::TuiOption => Some("tui uses its action menu for listing and history; --output is unavailable"),
            ArgumentError::Revision => Some("configuration revision must be a canonical u64 decimal from configuration list"),
            _ => None,
        }
    }

    /// What to tell the person who gave the arguments. What an owner says of a value that it
    /// refuses goes in `detail`.
    pub open spec fn explained(self, args: Seq<Argument>, detail: Seq<char>) -> Seq<char> {
        match self {
            ArgumentError::NotUtf8(_) => "arguments must be UTF-8"@,
            ArgumentError::Missing(flag) => flag.spelled() + " requires a value"@,
            ArgumentError::Duplicate(flag) => "duplicate "@ + flag.spelled(),
            ArgumentError::Unknown(i) => if i < args.len() && args[i as int].text is Some {
                "unknown option `"@ + args[i as int].text->0@ + "`"@
            } else {
                "unknown option"@
            },
            _ => match self.sentence() {
                Some(sentence) => sentence,
                None => detail,
            },
        }
    }

    pub fn explain(&self, args: &Vec<Argument>, detail: &str) -> (r: String)
        ensures
            r@ == self.explained(args@, detail@),
    {
        match self {
            ArgumentError::NotUtf8(_) => "arguments must be UTF-8".to_owned(),
            ArgumentError::Missing(flag) => {
                let mut r: String = flag.name().to_owned();
                r.append(" requires a value");
                r
            },
            ArgumentError::Duplicate(flag) => {
                let mut r: String = "duplicate ".to_owned();
                r.append(flag.name());
                r
            },
            ArgumentError::Unknown(i) => {
                if *i < args.len() {
                    if let Some(word) = &args[*i].text {
                        let mut r: String = "unknown option `".to_owned();
                        r.append(word.as_str());
                        r.append("`");
                        return r;
                    }
                }
                "unknown option".to_owned()
            },
            _ => match self.fixed() {
                Some(sentence) => sentence.to_owned(),
                None => detail.to_owned(),
            },
        }
    }
}

/// Where the options of the headless application are explained.
pub const USAGE_HINT: &'static str =
    "Use rsi --profile headless --help for application options.";

/// An explanation with the hint below it.
pub open spec fn hinted(message: Seq<char>) -> Seq<char> {
    message + "\n"@ + USAGE_HINT@
}

/// The error of a client that was started in a way that it does not know.
pub fn usage(message: &str) -> (r: RsiError)
    ensures
        r matches RsiError::Boot(s) && s@ == hinted(message@),
{
    RsiError::Boot(cat3(message, "\n", USAGE_HINT))
}

/// What is told of a task that cannot be read from the standard input.
pub fn stdin_told(e: StdinError) -> (r: &'static str)
    ensures
        r@ == (match e {
            StdinError::TooLarge => "stdin task exceeds the Agent text bound"@,
            StdinError::NotUtf8 => "stdin task is not UTF-8"@,
        }),
{
    match e {
        StdinError::TooLarge => "stdin task exceeds the Agent text bound",
        StdinError::NotUtf8 => "stdin task is not UTF-8",
    }
}

proof fn lemma_headless_words()
    ensures
        headless_named("--commands"@) == Some(Flag::Commands),
        headless_named("--command"@) == Some(Flag::Command),
        headless_named("--command-status"@) == Some(Flag::CommandStatus),
        headless_named("--stdin"@) == Some(Flag::Stdin),
        headless_named("--cwd"@) == Some(Flag::Cwd),
        headless_named("--resume"@) == Some(Flag::Resume),
        headless_named("--session-id"@) == Some(Flag::SessionId),
        headless_named("--message-id"@) == Some(Flag::MessageId),
        headless_named("-i"@) == Some(Flag::Image),
        headless_named("--image"@) == Some(Flag::Image),
        headless_named("--agent-preset"@) == Some(Flag::AgentPreset),
        headless_named("--trust-workspace"@) == Some(Flag::TrustWorkspace),
        headless_named("--deployment"@) == Some(Flag::Deployment),
        headless_named("--model"@) == Some(Flag::Model),
        headless_named("--sandbox"@) == Some(Flag::Sandbox),
        headless_named("--output"@) == Some(Flag::Output),
        headless_named("-h"@) == Some(Flag::Help),
        headless_named("--help"@) == Some(Flag::Help),
{
    assert(headless_named("--commands"@) == Some(Flag::Commands)) by {
        reveal_strlit("--commands");
    }
    assert(headless_named("--command"@) == Some(Flag::Command)) by {
        reveal_strlit("--command");
        reveal_strlit("--commands");
        assert("--commands"@.len() != "--command"@.len());
    }
    assert(headless_named("--command-status"@) == Some(Flag::CommandStatus)) by {
        reveal_strlit("--command-status");
        reveal_strlit("--commands");
        assert("--commands"@.len() != "--command-status"@.len());
        reveal_strlit("--command");
        assert("--command"@.len() != "--command-status"@.len());
    }
    assert(headless_named("--stdin"@) == Some(Flag::Stdin)) by {
        reveal_strlit("--stdin");
        reveal_strlit("--commands");
        assert("--commands"@.len() != "--stdin"@.len());
        reveal_strlit("--command");
        assert("--command"@.len() != "--stdin"@.len());
        reveal_strlit("--command-status");
        assert("--command-status"@.len() != "--stdin"@.len());
    }
    assert(headless_named("--cwd"@) == Some(Flag::Cwd)) by {
        reveal_strlit("--cwd");
        reveal_strlit("--commands");
        assert("--commands"@.len() != "--cwd"@.len());
        reveal_strlit("--command");
        assert("--command"@.len() != "--cwd"@.len());
        reveal_strlit("--command-status");
        assert("--command-status"@.len() != "--cwd"@.len());
        reveal_strlit("--stdin");
        assert("--stdin"@.len() != "--cwd"@.len());
    }
    assert(headless_named("--resume"@) == Some(Flag::Resume)) by {
        reveal_strlit("--resume");
        reveal_strlit("--commands");
        assert("--commands"@.len() != "--resume"@.len());
        reveal_strlit("--command");
        assert("--command"@.len() != "--resume"@.len());
        reveal_strlit("--command-status");
        assert("--command-status"@.len() != "--resume"@.len());
        reveal_strlit("--stdin");
        assert("--stdin"@.len() != "--resume"@.len());
        reveal_strlit("--cwd");
        assert("--cwd"@.len() != "--resume"@.len());
    }
    assert(headless_named("--session-id"@) == Some(Flag::SessionId)) by {
        reveal_strlit("--session-id");
        reveal_strlit("--commands");
        assert("--commands"@.len() != "--session-id"@.len());
        reveal_strlit("--command");
        assert("--command"@.len() != "--session-id"@.len());
        reveal_strlit("--command-status");
        assert("--command-status"@.len() != "--session-id"@.len());
        reveal_strlit("--stdin");
        assert("--stdin"@.len() != "--session-id"@.len());
        reveal_strlit("--cwd");
        assert("--cwd"@.len() != "--session-id"@.len());
        reveal_strlit("--resume");
        assert("--resume"@.len() != "--session-id"@.len());
    }
    assert(headless_named("--message-id"@) == Some(Flag::MessageId)) by {
        reveal_strlit("--message-id");
        reveal_strlit("--commands");
        assert("--commands"@.len() != "--message-id"@.len());
        reveal_strlit("--command");
        assert("--command"@.len() != "--message-id"@.len());
        reveal_strlit("--command-status");
        assert("--command-status"@.len() != "--message-id"@.len());
        reveal_strlit("--stdin");
        assert("--stdin"@.len() != "--message-id"@.len());
        reveal_strlit("--cwd");
        assert("--cwd"@.len() != "--message-id"@.len());
        reveal_strlit("--resume");
        assert("--resume"@.len() != "--message-id"@.len());
        reveal_strlit("--session-id");
        assert("--session-id"@[2] != "--message-id"@[2]);
    }
    assert(headless_named("-i"@) == Some(Flag::Image)) by {
        reveal_strlit("-i");
        reveal_strlit("--commands");
        assert("--commands"@.len() != "-i"@.len());
        reveal_strlit("--command");
        assert("--command"@.len() != "-i"@.len());
        reveal_strlit("--command-status");
        assert("--command-status"@.len() != "-i"@.len());
        reveal_strlit("--stdin");
        assert("--stdin"@.len() != "-i"@.len());
        reveal_strlit("--cwd");
        assert("--cwd"@.len() != "-i"@.len());
        reveal_strlit("--resume");
        assert("--resume"@.len() != "-i"@.len());
        reveal_strlit("--session-id");
        assert("--session-id"@.len() != "-i"@.len());
        reveal_strlit("--message-id");
        assert("--message-id"@.len() != "-i"@.len());
    }
    assert(headless_named("--image"@) == Some(Flag::Image)) by {
        reveal_strlit("--image");
        reveal_strlit("--commands");
        assert("--commands"@.len() != "--image"@.len());
        reveal_strlit("--command");
        assert("--command"@.len() != "--image"@.len());
        reveal_strlit("--command-status");
        assert("--command-status"@.len() != "--image"@.len());
        reveal_strlit("--stdin");
        assert("--stdin"@[2] != "--image"@[2]);
        reveal_strlit("--cwd");
        assert("--cwd"@.len() != "--image"@.len());
        reveal_strlit("--resume");
        assert("--resume"@.len() != "--image"@.len());
        reveal_strlit("--session-id");
        assert("--session-id"@.len() != "--image"@.len());
        reveal_strlit("--message-id");
        assert("--message-id"@.len() != "--image"@.len());
        reveal_strlit("-i");
        assert("-i"@.len() != "--image"@.len());
    }
    assert(headless_named("--agent-preset"@) == Some(Flag::AgentPreset)) by {
        reveal_strlit("--agent-preset");
        reveal_strlit("--commands");
        assert("--commands"@.len() != "--agent-preset"@.len());
        reveal_strlit("--command");
        assert("--command"@.len() != "--agent-preset"@.len());
        reveal_strlit("--command-status");
        assert("--command-status"@.len() != "--agent-preset"@.len());
        reveal_strlit("--stdin");
        assert("--stdin"@.len() != "--agent-preset"@.len());
        reveal_strlit("--cwd");
        assert("--cwd"@.len() != "--agent-preset"@.len());
        reveal_strlit("--resume");
        assert("--resume"@.len() != "--agent-preset"@.len());
        reveal_strlit("--session-id");
        assert("--session-id"@.len() != "--agent-preset"@.len());
        reveal_strlit("--message-id");
        assert("--message-id"@.len() != "--agent-preset"@.len());
        reveal_strlit("-i");
        assert("-i"@.len() != "--agent-preset"@.len());
        reveal_strlit("--image");
        assert("--image"@.len() != "--agent-preset"@.len());
    }
    assert(headless_named("--trust-workspace"@) == Some(Flag::TrustWorkspace)) by {
        reveal_strlit("--trust-workspace");
        reveal_strlit("--commands");
        assert("--commands"@.len() != "--trust-workspace"@.len());
        reveal_strlit("--command");
        assert("--command"@.len() != "--trust-workspace"@.len());
        reveal_strlit("--command-status");
        assert("--command-status"@.len() != "--trust-workspace"@.len());
        reveal_strlit("--stdin");
        assert("--stdin"@.len() != "--trust-workspace"@.len());
        reveal_strlit("--cwd");
        assert("--cwd"@.len() != "--trust-workspace"@.len());
        reveal_strlit("--resume");
        assert("--resume"@.len() != "--trust-workspace"@.len());
        reveal_strlit("--session-id");
        assert("--session-id"@.len() != "--trust-workspace"@.len());
        reveal_strlit("--message-id");
        assert("--message-id"@.len() != "--trust-workspace"@.len());
        reveal_strlit("-i");
        assert("-i"@.len() != "--trust-workspace"@.len());
        reveal_strlit("--image");
        assert("--image"@.len() != "--trust-workspace"@.len());
        reveal_strlit("--agent-preset");
        assert("--agent-preset"@.len() != "--trust-workspace"@.len());
    }
    assert(headless_named("--deployment"@) == Some(Flag::Deployment)) by {
        reveal_strlit("--deployment");
        reveal_strlit("--commands");
        assert("--commands"@.len() != "--deployment"@.len());
        reveal_strlit("--command");
        assert("--command"@.len() != "--deployment"@.len());
        reveal_strlit("--command-status");
        assert("--command-status"@.len() != "--deployment"@.len());
        reveal_strlit("--stdin");
        assert("--stdin"@.len() != "--deployment"@.len());
        reveal_strlit("--cwd");
        assert("--cwd"@.len() != "--deployment"@.len());
        reveal_strlit("--resume");
        assert("--resume"@.len() != "--deployment"@.len());
        reveal_strlit("--session-id");
        assert("--session-id"@[2] != "--deployment"@[2]);
        reveal_strlit("--message-id");
        assert("--message-id"@[2] != "--deployment"@[2]);
        reveal_strlit("-i");
        assert("-i"@.len() != "--deployment"@.len());
        reveal_strlit("--image");
        assert("--image"@.len() != "--deployment"@.len());
        reveal_strlit("--agent-preset");
        assert("--agent-preset"@.len() != "--deployment"@.len());
        reveal_strlit("--trust-workspace");
        assert("--trust-workspace"@.len() != "--deployment"@.len());
    }
    assert(headless_named("--model"@) == Some(Flag::Model)) by {
        reveal_strlit("--model");
        reveal_strlit("--commands");
        assert("--commands"@.len() != "--model"@.len());
        reveal_strlit("--command");
        assert("--command"@.len() != "--model"@.len());
        reveal_strlit("--command-status");
        assert("--command-status"@.len() != "--model"@.len());
        reveal_strlit("--stdin");
        assert("--stdin"@[2] != "--model"@[2]);
        reveal_strlit("--cwd");
        assert("--cwd"@.len() != "--model"@.len());
        reveal_strlit("--resume");
        assert("--resume"@.len() != "--model"@.len());
        reveal_strlit("--session-id");
        assert("--session-id"@.len() != "--model"@.len());
        reveal_strlit("--message-id");
        assert("--message-id"@.len() != "--model"@.len());
        reveal_strlit("-i");
        assert("-i"@.len() != "--model"@.len());
        reveal_strlit("--image");
        assert("--image"@[2] != "--model"@[2]);
        reveal_strlit("--agent-preset");
        assert("--agent-preset"@.len() != "--model"@.len());
        reveal_strlit("--trust-workspace");
        assert("--trust-workspace"@.len() != "--model"@.len());
        reveal_strlit("--deployment");
        assert("--deployment"@.len() != "--model"@.len());
    }
    assert(headless_named("--sandbox"@) == Some(Flag::Sandbox)) by {
        reveal_strlit("--sandbox");
        reveal_strlit("--commands");
        assert("--commands"@.len() != "--sandbox"@.len());
        reveal_strlit("--command");
        assert("--command"@[2] != "--sandbox"@[2]);
        reveal_strlit("--command-status");
        assert("--command-status"@.len() != "--sandbox"@.len());
        reveal_strlit("--stdin");
        assert("--stdin"@.len() != "--sandbox"@.len());
        reveal_strlit("--cwd");
        assert("--cwd"@.len() != "--sandbox"@.len());
        reveal_strlit("--resume");
        assert("--resume"@.len() != "--sandbox"@.len());
        reveal_strlit("--session-id");
        assert("--session-id"@.len() != "--sandbox"@.len());
        reveal_strlit("--message-id");
        assert("--message-id"@.len() != "--sandbox"@.len());
        reveal_strlit("-i");
        assert("-i"@.len() != "--sandbox"@.len());
        reveal_strlit("--image");
        assert("--image"@.len() != "--sandbox"@.len());
        reveal_strlit("--agent-preset");
        assert("--agent-preset"@.len() != "--sandbox"@.len());
        reveal_strlit("--trust-workspace");
        assert("--trust-workspace"@.len() != "--sandbox"@.len());
        reveal_strlit("--deployment");
        assert("--deployment"@.len() != "--sandbox"@.len());
        reveal_strlit("--model");
        assert("--model"@.len() != "--sandbox"@.len());
    }
    assert(headless_named("--output"@) == Some(Flag::Output)) by {
        reveal_strlit("--output");
        reveal_strlit("--commands");
        assert("--commands"@.len() != "--output"@.len());
        reveal_strlit("--command");
        assert("--command"@.len() != "--output"@.len());
        reveal_strlit("--command-status");
        assert("--command-status"@.len() != "--output"@.len());
        reveal_strlit("--stdin");
        assert("--stdin"@.len() != "--output"@.len());
        reveal_strlit("--cwd");
        assert("--cwd"@.len() != "--output"@.len());
        reveal_strlit("--resume");
        assert("--resume"@[2] != "--output"@[2]);
        reveal_strlit("--session-id");
        assert("--session-id"@.len() != "--output"@.len());
        reveal_strlit("--message-id");
        assert("--message-id"@.len() != "--output"@.len());
        reveal_strlit("-i");
        assert("-i"@.len() != "--output"@.len());
        reveal_strlit("--image");
        assert("--image"@.len() != "--output"@.len());
        reveal_strlit("--agent-preset");
        assert("--agent-preset"@.len() != "--output"@.len());
        reveal_strlit("--trust-workspace");
        assert("--trust-workspace"@.len() != "--output"@.len());
        reveal_strlit("--deployment");
        assert("--deployment"@.len() != "--output"@.len());
        reveal_strlit("--model");
        assert("--model"@.len() != "--output"@.len());
        reveal_strlit("--sandbox");
        assert("--sandbox"@.len() != "--output"@.len());
    }
    assert(headless_named("-h"@) == Some(Flag::Help)) by {
        reveal_strlit("-h");
        reveal_strlit("--commands");
        assert("--commands"@.len() != "-h"@.len());
        reveal_strlit("--command");
        assert("--command"@.len() != "-h"@.len());
        reveal_strlit("--command-status");
        assert("--command-status"@.len() != "-h"@.len());
        reveal_strlit("--stdin");
        assert("--stdin"@.len() != "-h"@.len());
        reveal_strlit("--cwd");
        assert("--cwd"@.len() != "-h"@.len());
        reveal_strlit("--resume");
        assert("--resume"@.len() != "-h"@.len());
        reveal_strlit("--session-id");
        assert("--session-id"@.len() != "-h"@.len());
        reveal_strlit("--message-id");
        assert("--message-id"@.len() != "-h"@.len());
        reveal_strlit("-i");
        assert("-i"@[1] != "-h"@[1]);
        reveal_strlit("--image");
        assert("--image"@.len() != "-h"@.len());
        reveal_strlit("--agent-preset");
        assert("--agent-preset"@.len() != "-h"@.len());
        reveal_strlit("--trust-workspace");
        assert("--trust-workspace"@.len() != "-h"@.len());
        reveal_strlit("--deployment");
        assert("--deployment"@.len() != "-h"@.len());
        reveal_strlit("--model");
        assert("--model"@.len() != "-h"@.len());
        reveal_strlit("--sandbox");
        assert("--sandbox"@.len() != "-h"@.len());
        reveal_strlit("--output");
        assert("--output"@.len() != "-h"@.len());
    }
    assert(headless_named("--help"@) == Some(Flag::Help)) by {
        reveal_strlit("--help");
        reveal_strlit("--commands");
        assert("--commands"@.len() != "--help"@.len());
        reveal_strlit("--command");
        assert("--command"@.len() != "--help"@.len());
        reveal_strlit("--command-status");
        assert("--command-status"@.len() != "--help"@.len());
        reveal_strlit("--stdin");
        assert("--stdin"@.len() != "--help"@.len());
        reveal_strlit("--cwd");
        assert("--cwd"@.len() != "--help"@.len());
        reveal_strlit("--resume");
        assert("--resume"@.len() != "--help"@.len());
        reveal_strlit("--session-id");
        assert("--session-id"@.len() != "--help"@.len());
        reveal_strlit("--message-id");
        assert("--message-id"@.len() != "--help"@.len());
        reveal_strlit("-i");
        assert("-i"@.len() != "--help"@.len());
        reveal_strlit("--image");
        assert("--image"@.len() != "--help"@.len());
        reveal_strlit("--agent-preset");
        assert("--agent-preset"@.len() != "--help"@.len());
        reveal_strlit("--trust-workspace");
        assert("--trust-workspace"@.len() != "--help"@.len());
        reveal_strlit("--deployment");
        assert("--deployment"@.len() != "--help"@.len());
        reveal_strlit("--model");
        assert("--model"@.len() != "--help"@.len());
        reveal_strlit("--sandbox");
        assert("--sandbox"@.len() != "--help"@.len());
        reveal_strlit("--output");
        assert("--output"@.len() != "--help"@.len());
        reveal_strlit("-h");
        assert("-h"@.len() != "--help"@.len());
    }
}

proof fn lemma_words_are_options()
    ensures
        text::begins("--commands"@, "-"@) && "--commands"@ != "--"@,
        text::begins("--command"@, "-"@) && "--command"@ != "--"@,
        text::begins("--command-status"@, "-"@) && "--command-status"@ != "--"@,
        text::begins("--stdin"@, "-"@) && "--stdin"@ != "--"@,
        text::begins("--cwd"@, "-"@) && "--cwd"@ != "--"@,
        text::begins("--resume"@, "-"@) && "--resume"@ != "--"@,
        text::begins("--session-id"@, "-"@) && "--session-id"@ != "--"@,
        text::begins("--message-id"@, "-"@) && "--message-id"@ != "--"@,
        text::begins("-i"@, "-"@) && "-i"@ != "--"@,
        text::begins("--image"@, "-"@) && "--image"@ != "--"@,
        text::begins("--agent-preset"@, "-"@) && "--agent-preset"@ != "--"@,
        text::begins("--trust-workspace"@, "-"@) && "--trust-workspace"@ != "--"@,
        text::begins("--deployment"@, "-"@) && "--deployment"@ != "--"@,
        text::begins("--model"@, "-"@) && "--model"@ != "--"@,
        text::begins("--sandbox"@, "-"@) && "--sandbox"@ != "--"@,
        text::begins("--output"@, "-"@) && "--output"@ != "--"@,
        text::begins("-h"@, "-"@) && "-h"@ != "--"@,
        text::begins("--help"@, "-"@) && "--help"@ != "--"@,
{
    reveal_strlit("-");
    reveal_strlit("--");
    assert(text::begins("--commands"@, "-"@) && "--commands"@ != "--"@) by {
        reveal_strlit("--commands");
        assert("--commands"@.take(1) =~= "-"@);
        assert("--commands"@.len() != "--"@.len());
    }
    assert(text::begins("--command"@, "-"@) && "--command"@ != "--"@) by {
        reveal_strlit("--command");
        assert("--command"@.take(1) =~= "-"@);
        assert("--command"@.len() != "--"@.len());
    }
    assert(text::begins("--command-status"@, "-"@) && "--command-status"@ != "--"@) by {
        reveal_strlit("--command-status");
        assert("--command-status"@.take(1) =~= "-"@);
        assert("--command-status"@.len() != "--"@.len());
    }
    assert(text::begins("--stdin"@, "-"@) && "--stdin"@ != "--"@) by {
        reveal_strlit("--stdin");
        assert("--stdin"@.take(1) =~= "-"@);
        assert("--stdin"@.len() != "--"@.len());
    }
    assert(text::begins("--cwd"@, "-"@) && "--cwd"@ != "--"@) by {
        reveal_strlit("--cwd");
        assert("--cwd"@.take(1) =~= "-"@);
        assert("--cwd"@.len() != "--"@.len());
    }
    assert(text::begins("--resume"@, "-"@) && "--resume"@ != "--"@) by {
        reveal_strlit("--resume");
        assert("--resume"@.take(1) =~= "-"@);
        assert("--resume"@.len() != "--"@.len());
    }
    assert(text::begins("--session-id"@, "-"@) && "--session-id"@ != "--"@) by {
        reveal_strlit("--session-id");
        assert("--session-id"@.take(1) =~= "-"@);
        assert("--session-id"@.len() != "--"@.len());
    }
    assert(text::begins("--message-id"@, "-"@) && "--message-id"@ != "--"@) by {
        reveal_strlit("--message-id");
        assert("--message-id"@.take(1) =~= "-"@);
        assert("--message-id"@.len() != "--"@.len());
    }
    assert(text::begins("-i"@, "-"@) && "-i"@ != "--"@) by {
        reveal_strlit("-i");
        assert("-i"@.take(1) =~= "-"@);
        assert("-i"@[1] != "--"@[1]);
    }
    assert(text::begins("--image"@, "-"@) && "--image"@ != "--"@) by {
        reveal_strlit("--image");
        assert("--image"@.take(1) =~= "-"@);
        assert("--image"@.len() != "--"@.len());
    }
    assert(text::begins("--agent-preset"@, "-"@) && "--agent-preset"@ != "--"@) by {
        reveal_strlit("--agent-preset");
        assert("--agent-preset"@.take(1) =~= "-"@);
        assert("--agent-preset"@.len() != "--"@.len());
    }
    assert(text::begins("--trust-workspace"@, "-"@) && "--trust-workspace"@ != "--"@) by {
        reveal_strlit("--trust-workspace");
        assert("--trust-workspace"@.take(1) =~= "-"@);
        assert("--trust-workspace"@.len() != "--"@.len());
    }
    assert(text::begins("--deployment"@, "-"@) && "--deployment"@ != "--"@) by {
        reveal_strlit("--deployment");
        assert("--deployment"@.take(1) =~= "-"@);
        assert("--deployment"@.len() != "--"@.len());
    }
    assert(text::begins("--model"@, "-"@) && "--model"@ != "--"@) by {
        reveal_strlit("--model");
        assert("--model"@.take(1) =~= "-"@);
        assert("--model"@.len() != "--"@.len());
    }
    assert(text::begins("--sandbox"@, "-"@) && "--sandbox"@ != "--"@) by {
        reveal_strlit("--sandbox");
        assert("--sandbox"@.take(1) =~= "-"@);
        assert("--sandbox"@.len() != "--"@.len());
    }
    assert(text::begins("--output"@, "-"@) && "--output"@ != "--"@) by {
        reveal_strlit("--output");
        assert("--output"@.take(1) =~= "-"@);
        assert("--output"@.len() != "--"@.len());
    }
    assert(text::begins("-h"@, "-"@) && "-h"@ != "--"@) by {
        reveal_strlit("-h");
        assert("-h"@.take(1) =~= "-"@);
        assert("-h"@[1] != "--"@[1]);
    }
    assert(text::begins("--help"@, "-"@) && "--help"@ != "--"@) by {
        reveal_strlit("--help");
        assert("--help"@.take(1) =~= "-"@);
        assert("--help"@.len() != "--"@.len());
    }
}

/// Whether an argument is a task rather than an option.
pub open spec fn task_like(a: Argument) -> bool {
    a.text matches Some(t) && (t@.len() == 0 || t@[0] != '-')
}

proof fn lemma_task_like(a: Argument)
    requires
        task_like(a),
    ensures
        a.text is Some,
        a.text->0@ != "--"@,
        !text::begins(a.text->0@, "-"@),
{
    reveal_strlit("-");
    reveal_strlit("--");
    let t = a.text->0@;
    if text::begins(t, "-"@) {
        assert(t.take(1)[0] == "-"@[0]);
    }
}

/// One option and then a task.
proof fn lemma_option_and_task(
    args: Seq<Argument>,
    bound: int,
    word: Seq<char>,
    flag: Flag,
    c: CommandView,
)
    requires
        args.len() > 0,
        args[0].is(word),
        headless_named(word) == Some(flag),
        text::begins(word, "-"@),
        word != "--"@,
        CommandView::empty().optioned(args, 0, flag, bound) == Ok::<
            (int, CommandView),
            ArgumentError,
        >((args.len() - 1, c)),
        args.len() > 1,
        c.positional is None,
        task_like(args.last()),
    ensures
        CommandView::empty().scanned(args, 0, false, bound) == Ok::<CommandView, ArgumentError>(
            CommandView { positional: Some((args.len() - 1) as usize), ..c },
        ),
{
    lemma_task_like(args.last());
    let n = args.len() - 1;
    let d = CommandView { positional: Some(n as usize), ..c };
    assert(d.scanned(args, n + 1, false, bound) == Ok::<CommandView, ArgumentError>(d));
    assert(args[n] == args.last());
    assert(c.scanned(args, n, false, bound) == Ok::<CommandView, ArgumentError>(d));
}

/// An option that is refused.
proof fn lemma_option_refused(
    args: Seq<Argument>,
    bound: int,
    word: Seq<char>,
    flag: Flag,
    e: ArgumentError,
)
    requires
        args.len() > 0,
        args[0].is(word),
        headless_named(word) == Some(flag),
        text::begins(word, "-"@),
        word != "--"@,
        CommandView::empty().optioned(args, 0, flag, bound) == Err::<
            (int, CommandView),
            ArgumentError,
        >(e),
    ensures
        CommandView::empty().scanned(args, 0, false, bound) == Err::<CommandView, ArgumentError>(e),
{
}

/// The three words of `--sandbox` name three different modes, each its own, and no other word names
/// any; nothing else of the command changes.
pub proof fn law_sandbox_modes(args: Seq<Argument>, bound: int, model_refused: bool)
    requires
        args.len() == 3,
        args[0].is("--sandbox"@),
        args[1].text is Some,
        task_like(args[2]),
    ensures
        ({
            let p = CommandView::parsed(args, bound, model_refused);
            let with = |mode: SandboxMode|
                Ok::<CommandView, ArgumentError>(
                    CommandView { sandbox: Some(mode), positional: Some(2), ..CommandView::empty() },
                );
            &&& args[1].is("read-only"@) ==> p == with(SandboxMode::ReadOnly)
            &&& args[1].is("workspace-write"@) ==> p == with(SandboxMode::WorkspaceWrite)
            &&& args[1].is("danger-full-access"@) <==> p == with(SandboxMode::DangerFullAccess)
            &&& p == Err::<CommandView, ArgumentError>(ArgumentError::SandboxMode) <==> !args[1].is(
                "read-only"@,
            ) && !args[1].is("workspace-write"@) && !args[1].is("danger-full-access"@)
        }),
{
    lemma_headless_words();
    lemma_words_are_options();
    reveal_strlit("read-only");
    reveal_strlit("workspace-write");
    reveal_strlit("danger-full-access");
    assert("read-only"@.len() != "workspace-write"@.len());
    assert("read-only"@.len() != "danger-full-access"@.len());
    assert("workspace-write"@.len() != "danger-full-access"@.len());
    match sandbox_named(args[1].text->0@) {
        Some(mode) => {
            lemma_option_and_task(
                args,
                bound,
                "--sandbox"@,
                Flag::Sandbox,
                CommandView { sandbox: Some(mode), ..CommandView::empty() },
            );
        },
        None => {
            lemma_option_refused(
                args,
                bound,
                "--sandbox"@,
                Flag::Sandbox,
                ArgumentError::SandboxMode,
            );
        },
    }
}

/// The two words of `--output` name two different modes, each its own, and no other word names any.
pub proof fn law_output_modes(args: Seq<Argument>, bound: int, model_refused: bool)
    requires
        args.len() == 3,
        args[0].is("--output"@),
        args[1].text is Some,
        task_like(args[2]),
    ensures
        ({
            let p = CommandView::parsed(args, bound, model_refused);
            let with = |mode: OutputMode|
                Ok::<CommandView, ArgumentError>(
                    CommandView { output: Some(mode), positional: Some(2), ..CommandView::empty() },
                );
            &&& args[1].is("text"@) <==> p == with(OutputMode::Text)
            &&& args[1].is("jsonl"@) <==> p == with(OutputMode::Jsonl)
            &&& p == Err::<CommandView, ArgumentError>(ArgumentError::OutputMode) <==> !args[1].is(
                "text"@,
            ) && !args[1].is("jsonl"@)
        }),
{
    lemma_headless_words();
    lemma_words_are_options();
    reveal_strlit("text");
    reveal_strlit("jsonl");
    assert("text"@.len() != "jsonl"@.len());
    match output_named(args[1].text->0@) {
        Some(mode) => {
            lemma_option_and_task(
                args,
                bound,
                "--output"@,
                Flag::Output,
                CommandView { output: Some(mode), ..CommandView::empty() },
            );
        },
        None => {
            lemma_option_refused(args, bound, "--output"@, Flag::Output, ArgumentError::OutputMode);
        },
    }
}

/// An option that takes an identifier holds the argument behind it, where the owner of that kind
/// accepts it; otherwise the argument is refused as one of that kind. Nothing else changes.
pub proof fn law_identifier_options(args: Seq<Argument>, bound: int, model_refused: bool)
    requires
        args.len() == 3,
        args[1].text is Some,
        task_like(args[2]),
    ensures
        ({
            let p = CommandView::parsed(args, bound, model_refused);
            let r = args[1].refused;
            let c = CommandView { positional: Some(2), ..CommandView::empty() };
            &&& args[0].is("--resume"@) && !r.session ==> p == Ok::<CommandView, ArgumentError>(
                CommandView { resume: Some(1), ..c },
            )
            &&& args[0].is("--resume"@) && r.session ==> p == Err::<CommandView, ArgumentError>(
                ArgumentError::Refused(Kind::Session, 1),
            )
            &&& args[0].is("--session-id"@) && !r.session ==> p == Ok::<CommandView, ArgumentError>(
                CommandView { session_id: Some(1), ..c },
            )
            &&& args[0].is("--session-id"@) && r.session ==> p == Err::<CommandView, ArgumentError>(
                ArgumentError::Refused(Kind::Session, 1),
            )
            &&& args[0].is("--message-id"@) && !r.message ==> p == Ok::<CommandView, ArgumentError>(
                CommandView { message_id: Some(1), ..c },
            )
            &&& args[0].is("--message-id"@) && r.message ==> p == Err::<CommandView, ArgumentError>(
                ArgumentError::Refused(Kind::Message, 1),
            )
            &&& args[0].is("--agent-preset"@) && !r.preset ==> p == Ok::<CommandView, ArgumentError>(
                CommandView { agent_preset: Some(1), ..c },
            )
            &&& args[0].is("--agent-preset"@) && r.preset ==> p == Err::<CommandView, ArgumentError>(
                ArgumentError::Refused(Kind::Preset, 1),
            )
        }),
{
    lemma_headless_words();
    lemma_words_are_options();
    let r = args[1].refused;
    if args[0].is("--resume"@) {
        if r.session {
            lemma_option_refused(
                args,
                bound,
                "--resume"@,
                Flag::Resume,
                ArgumentError::Refused(Kind::Session, 1),
            );
        } else {
            lemma_option_and_task(
                args,
                bound,
                "--resume"@,
                Flag::Resume,
                CommandView { resume: Some(1), ..CommandView::empty() },
            );
        }
    }
    if args[0].is("--session-id"@) {
        if r.session {
            lemma_option_refused(
                args,
                bound,
                "--session-id"@,
                Flag::SessionId,
                ArgumentError::Refused(Kind::Session, 1),
            );
        } else {
            lemma_option_and_task(
                args,
                bound,
                "--session-id"@,
                Flag::SessionId,
                CommandView { session_id: Some(1), ..CommandView::empty() },
            );
        }
    }
    if args[0].is("--message-id"@) {
        if r.message {
            lemma_option_refused(
                args,
                bound,
                "--message-id"@,
                Flag::MessageId,
                ArgumentError::Refused(Kind::Message, 1),
            );
        } else {
            lemma_option_and_task(
                args,
                bound,
                "--message-id"@,
                Flag::MessageId,
                CommandView { message_id: Some(1), ..CommandView::empty() },
            );
        }
    }
    if args[0].is("--agent-preset"@) {
        if r.preset {
            lemma_option_refused(
                args,
                bound,
                "--agent-preset"@,
                Flag::AgentPreset,
                ArgumentError::Refused(Kind::Preset, 1),
            );
        } else {
            lemma_option_and_task(
                args,
                bound,
                "--agent-preset"@,
                Flag::AgentPreset,
                CommandView { agent_preset: Some(1), ..CommandView::empty() },
            );
        }
    }
}

/// `--cwd` holds the argument behind it as the directory, and `-i` or `--image` as one more image,
/// whatever it is; `--deployment` and `--model` are refused without each other.
pub proof fn law_path_options(args: Seq<Argument>, bound: int, model_refused: bool)
    requires
        args.len() == 3,
        task_like(args[2]),
    ensures
        ({
            let p = CommandView::parsed(args, bound, model_refused);
            let c = CommandView { positional: Some(2), ..CommandView::empty() };
            &&& args[0].is("--cwd"@) ==> p == Ok::<CommandView, ArgumentError>(
                CommandView { cwd: Some(1), ..c },
            )
            &&& args[0].is("-i"@) || args[0].is("--image"@) ==> p == Ok::<
                CommandView,
                ArgumentError,
            >(CommandView { images: seq![1], ..c })
            &&& (args[0].is("--deployment"@) || args[0].is("--model"@)) && args[1].text is Some
                ==> p == Err::<CommandView, ArgumentError>(ArgumentError::ModelPair)
        }),
{
    lemma_headless_words();
    lemma_words_are_options();
    let one = Seq::<usize>::empty().push(1usize);
    assert(one =~= seq![1usize]);
    let e = CommandView::empty();
    if args[0].is("--cwd"@) {
        lemma_option_and_task(
            args,
            bound,
            "--cwd"@,
            Flag::Cwd,
            CommandView { cwd: Some(1), ..e },
        );
    }
    if args[0].is("-i"@) {
        lemma_option_and_task(
            args,
            bound,
            "-i"@,
            Flag::Image,
            CommandView { images: one, ..e },
        );
    }
    if args[0].is("--image"@) {
        lemma_option_and_task(
            args,
            bound,
            "--image"@,
            Flag::Image,
            CommandView { images: one, ..e },
        );
    }
    if args[1].text is Some {
        if args[0].is("--deployment"@) {
            lemma_option_and_task(
                args,
                bound,
                "--deployment"@,
                Flag::Deployment,
                CommandView { deployment: Some(1), ..e },
            );
        }
        if args[0].is("--model"@) {
            lemma_option_and_task(
                args,
                bound,
                "--model"@,
                Flag::Model,
                CommandView { model: Some(1), ..e },
            );
        }
    }
}

/// `--deployment` and `--model` together name a model, each with its own argument, unless the pair
/// is refused.
pub proof fn law_model_pair(args: Seq<Argument>, bound: int, model_refused: bool)
    requires
        args.len() == 5,
        args[0].is("--deployment"@),
        args[1].text is Some,
        args[2].is("--model"@),
        args[3].text is Some,
        task_like(args[4]),
    ensures
        CommandView::parsed(args, bound, model_refused) == (if model_refused {
            Err(ArgumentError::ModelRefused)
        } else {
            Ok(
                CommandView {
                    deployment: Some(1),
                    model: Some(3),
                    positional: Some(4),
                    ..CommandView::empty()
                },
            )
        }),
{
    lemma_headless_words();
    lemma_words_are_options();
    lemma_task_like(args[4]);
    let a = CommandView { deployment: Some(1), ..CommandView::empty() };
    let b = CommandView { model: Some(3), ..a };
    let c = CommandView { positional: Some(4), ..b };
    assert(c.scanned(args, 5, false, bound) == Ok::<CommandView, ArgumentError>(c));
    assert(b.scanned(args, 4, false, bound) == Ok::<CommandView, ArgumentError>(c));
    assert(a.optioned(args, 2, Flag::Model, bound) == Ok::<(int, CommandView), ArgumentError>(
        (4, b),
    ));
    assert(a.scanned(args, 2, false, bound) == Ok::<CommandView, ArgumentError>(c));
}

/// The options without a value: `--trust-workspace` beside a task, `--stdin` in place of one, and
/// `--commands` without one. Behind `--` anything is the task.
pub proof fn law_options_without_value(args: Seq<Argument>, bound: int, model_refused: bool)
    ensures
        ({
            let p = CommandView::parsed(args, bound, model_refused);
            let e = CommandView::empty();
            &&& args.len() == 2 && args[0].is("--trust-workspace"@) && task_like(args[1]) ==> p
                == Ok::<CommandView, ArgumentError>(
                CommandView { trust_workspace: true, positional: Some(1), ..e },
            )
            &&& args.len() == 1 && args[0].is("--stdin"@) ==> p == Ok::<CommandView, ArgumentError>(
                CommandView { stdin: true, ..e },
            )
            &&& args.len() == 1 && args[0].is("--commands"@) ==> p == Ok::<
                CommandView,
                ArgumentError,
            >(CommandView { extension: Some(Extension::List), ..e })
            &&& args.len() == 2 && args[0].is("--"@) && args[1].text is Some ==> p == Ok::<
                CommandView,
                ArgumentError,
            >(CommandView { positional: Some(1), ..e })
            &&& args.len() == 1 && task_like(args[0]) ==> p == Ok::<CommandView, ArgumentError>(
                CommandView { positional: Some(0), ..e },
            )
            &&& args.len() == 0 ==> p == Err::<CommandView, ArgumentError>(ArgumentError::TaskCount)
            &&& args.len() == 2 && task_like(args[0]) && task_like(args[1]) ==> p == Err::<
                CommandView,
                ArgumentError,
            >(ArgumentError::SecondTask)
        }),
{
    lemma_headless_words();
    lemma_words_are_options();
    let e = CommandView::empty();
    let n = args.len() as int;
    if n == 2 && args[0].is("--trust-workspace"@) && task_like(args[1]) {
        lemma_option_and_task(
            args,
            bound,
            "--trust-workspace"@,
            Flag::TrustWorkspace,
            CommandView { trust_workspace: true, ..e },
        );
    }
    if n == 1 && args[0].is("--stdin"@) {
        let c = CommandView { stdin: true, ..e };
        assert(c.scanned(args, 1, false, bound) == Ok::<CommandView, ArgumentError>(c));
    }
    if n == 1 && args[0].is("--commands"@) {
        let c = CommandView { extension: Some(Extension::List), ..e };
        assert(c.scanned(args, 1, false, bound) == Ok::<CommandView, ArgumentError>(c));
    }
    if n == 2 && args[0].is("--"@) && args[1].text is Some {
        let c = CommandView { positional: Some(1), ..e };
        assert(c.scanned(args, 2, true, bound) == Ok::<CommandView, ArgumentError>(c));
        assert(e.scanned(args, 1, true, bound) == Ok::<CommandView, ArgumentError>(c));
    }
    if n == 1 && task_like(args[0]) {
        lemma_task_like(args[0]);
        let c = CommandView { positional: Some(0), ..e };
        assert(c.scanned(args, 1, false, bound) == Ok::<CommandView, ArgumentError>(c));
    }
    if n == 2 && task_like(args[0]) && task_like(args[1]) {
        lemma_task_like(args[0]);
        lemma_task_like(args[1]);
        let c = CommandView { positional: Some(0), ..e };
        assert(c.scanned(args, 1, false, bound) == Err::<CommandView, ArgumentError>(
            ArgumentError::SecondTask,
        ));
    }
}

/// `--command` runs the invocation behind it, with a task or without, where it is within its bound
/// and its owner accepts it; `--command-status` asks for the request behind it, and never with a
/// task.
pub proof fn law_command_options(args: Seq<Argument>, bound: int, model_refused: bool)
    requires
        args.len() == 2,
        args[1].text is Some,
    ensures
        ({
            let p = CommandView::parsed(args, bound, model_refused);
            let e = CommandView::empty();
            let r = args[1].refused;
            let within = text::size(args[1].text->0@) <= bound;
            &&& args[0].is("--command"@) && within && !r.invocation ==> p == Ok::<
                CommandView,
                ArgumentError,
            >(CommandView { extension: Some(Extension::Execute(1)), ..e })
            &&& args[0].is("--command"@) && !within ==> p == Err::<CommandView, ArgumentError>(
                ArgumentError::InvocationBound,
            )
            &&& args[0].is("--command"@) && within && r.invocation ==> p == Err::<
                CommandView,
                ArgumentError,
            >(ArgumentError::Refused(Kind::Invocation, 1))
            &&& args[0].is("--command-status"@) && !r.request ==> p == Ok::<
                CommandView,
                ArgumentError,
            >(CommandView { extension: Some(Extension::Status(1)), ..e })
            &&& args[0].is("--command-status"@) && r.request ==> p == Err::<
                CommandView,
                ArgumentError,
            >(ArgumentError::Refused(Kind::Request, 1))
        }),
        forall|x: Extension, has_task: bool| #[trigger]
            x.validated(has_task) is Ok <==> !has_task || x is Execute,
{
    lemma_headless_words();
    lemma_words_are_options();
    let e = CommandView::empty();
    if args[0].is("--command"@) {
        let c = CommandView { extension: Some(Extension::Execute(1)), ..e };
        assert(c.scanned(args, 2, false, bound) == Ok::<CommandView, ArgumentError>(c));
    }
    if args[0].is("--command-status"@) {
        let c = CommandView { extension: Some(Extension::Status(1)), ..e };
        assert(c.scanned(args, 2, false, bound) == Ok::<CommandView, ArgumentError>(c));
    }
}

/// No option is taken twice: the second of its kind is refused as such, whatever else is given.
pub proof fn law_given_once(c: CommandView, args: Seq<Argument>, i: int, r: Refusals, bound: int)
    requires
        0 <= i,
        i + 1 < args.len(),
        args[i + 1].text is Some,
        args[i + 1].refused == r,
        forall|kind: Kind| !r.of(kind),
        text::size(args[i + 1].text->0@) <= bound,
    ensures
        ({
            let again = |flag: Flag|
                c.optioned(args, i, flag, bound) == Err::<(int, CommandView), ArgumentError>(
                    ArgumentError::Duplicate(flag),
                );
            &&& c.stdin ==> again(Flag::Stdin)
            &&& c.cwd is Some ==> again(Flag::Cwd)
            &&& c.resume is Some ==> again(Flag::Resume)
            &&& c.session_id is Some ==> again(Flag::SessionId)
            &&& c.message_id is Some ==> again(Flag::MessageId)
            &&& c.agent_preset is Some ==> again(Flag::AgentPreset)
            &&& c.trust_workspace ==> again(Flag::TrustWorkspace)
            &&& c.deployment is Some ==> again(Flag::Deployment)
            &&& c.model is Some ==> again(Flag::Model)
            &&& c.sandbox is Some ==> again(Flag::Sandbox)
            &&& c.output is Some ==> again(Flag::Output)
            &&& c.extension is Some ==> again(Flag::Command) && again(Flag::Commands) && again(
                Flag::CommandStatus,
            )
        }),
{
    assert(!r.of(Kind::Session));
    assert(!r.of(Kind::Message));
    assert(!r.of(Kind::Preset));
    assert(!r.of(Kind::Request));
    assert(!r.of(Kind::Invocation));
}

/// An option is read back from the word that it is written with.
pub proof fn law_spelled(flag: Flag)
    requires
        !(flag is List) && !(flag is History),
    ensures
        headless_named(flag.spelled()) == Some(flag),
{
    lemma_headless_words();
}

/// An explanation holds the option or the word that it is about, and the hint stands below it.
pub proof fn law_explained(args: Seq<Argument>, i: usize, detail: Seq<char>, message: Seq<char>)
    requires
        i < args.len(),
        args[i as int].text is Some,
    ensures
        ArgumentError::Unknown(i).explained(args, detail) == "unknown option `"@
            + args[i as int].text->0@ + "`"@,
        ArgumentError::Missing(Flag::Cwd).explained(args, detail) == "--cwd"@ + " requires a value"@,
        ArgumentError::Duplicate(Flag::Cwd).explained(args, detail) == "duplicate "@ + "--cwd"@,
        forall|kind: Kind| #[trigger]
            ArgumentError::Refused(kind, i).explained(args, detail) == detail,
        ArgumentError::ModelRefused.explained(args, detail) == detail,
        hinted(message) == message + "\n"@
            + "Use rsi --profile headless --help for application options."@,
{
}

} // verus!
