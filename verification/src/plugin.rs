//! The terminal applications, as they are prepared and run once each.
use vstd::prelude::*;
use vstd::string::*;
use crate::arguments;
use crate::arguments::{usage, Argument, ArgumentError, Command};
use crate::devices;
use crate::display;
use crate::display::bounded;
use crate::errors::RsiError;
use crate::inspector;
use crate::session_command;
use crate::session_command::{parse_tui, SessionCommand};

verus! {

/// The arguments that an application takes.
pub const MAXIMUM_ARGUMENTS: usize = 2048;

/// The bytes that arguments may have beyond a whole input.
pub const ARGUMENT_BYTES: usize = 65536;

/// The bytes of what is told of arguments that were refused.
pub const DIAGNOSTIC_BYTES: usize = 4096;

/// An application.
#[derive(Clone, Copy, Debug, PartialEq, Eq, Structural)]
pub enum Kind {
    Inspector,
    Devices,
    Cli,
    Headless,
    Tui,
}

/// What the arguments of an application ask for.
#[derive(Debug)]
pub enum Prepared {
    Inspector(inspector::Command),
    Devices(devices::Command),
    Cli(SessionCommand),
    Headless(Command),
    Tui(SessionCommand),
}

/// Why an application is not prepared.
#[derive(Debug)]
pub enum Refusal {
    /// It takes no configuration.
    Configuration,
    /// There are too many arguments, or they are too long.
    Bound,
    Arguments(ArgumentError),
    /// The terminal cannot be used, as is told.
    Terminal(String),
}

/// What is told of an application that is not prepared. What an owner says of a value that it refuses
/// goes in `detail`.
pub open spec fn told(kind: Kind, e: Refusal, args: Seq<Argument>, detail: Seq<char>) -> Seq<char> {
    match e {
        Refusal::Configuration => "terminal application configuration must be null"@,
        Refusal::Bound => "terminal arguments exceed their count or byte bound"@,
        Refusal::Terminal(problem) => arguments::hinted(problem@),
        Refusal::Arguments(e) => match kind {
            Kind::Inspector => inspector::HELP@,
            Kind::Devices => devices::explained(e, detail),
            Kind::Headless => arguments::hinted(e.explained(args, detail)),
            Kind::Cli | Kind::Tui => arguments::hinted(
                session_command::session_explained(e, args, detail),
            ),
        },
    }
}

/// The text of an error.
fn text_of(e: RsiError) -> (r: String)
    ensures
        match e {
            RsiError::Boot(s) => r@ == s@,
            RsiError::Run(s) => r@ == s@,
        },
{
    match e {
        RsiError::Boot(s) => s,
        RsiError::Run(s) => s,
    }
}

impl Refusal {
    /// Tells why an application is not prepared.
    pub fn tell(&self, kind: Kind, args: &Vec<Argument>, detail: &str) -> (r: String)
        ensures
            r@ == told(kind, *self, args@, detail@),
    {
        match self {
            Refusal::Configuration => "terminal application configuration must be null".to_owned(),
            Refusal::Bound => "terminal arguments exceed their count or byte bound".to_owned(),
            Refusal::Terminal(problem) => text_of(usage(problem.as_str())),
            Refusal::Arguments(e) => match kind {
                Kind::Inspector => text_of(inspector::explain()),
                Kind::Devices => text_of(devices::explain(e, detail)),
                Kind::Headless => text_of(usage(e.explain(args, detail).as_str())),
                Kind::Cli | Kind::Tui => text_of(
                    usage(session_command::explain(e, args, detail).as_str()),
                ),
            },
        }
    }
}

/// Something that an application needs.
#[derive(Clone, Copy, Debug, PartialEq, Eq, Structural)]
pub enum Requirement {
    ApiClient,
    Session,
    Workspace,
    Media,
    OutputCache,
    Ui,
    UiTarget,
    LanguageModels,
    ConnectionLifetime,
}

/// What an application needs, in order.
pub open spec fn required(kind: Kind) -> Seq<Requirement> {
    match kind {
        Kind::Inspector | Kind::Devices => seq![Requirement::ApiClient],
        Kind::Headless => seq![Requirement::Session, Requirement::Workspace, Requirement::Media],
        Kind::Cli => seq![
            Requirement::Session,
            Requirement::Workspace,
            Requirement::OutputCache,
        ],
        Kind::Tui => seq![
            Requirement::Session,
            Requirement::Workspace,
            Requirement::Ui,
            Requirement::UiTarget,
            Requirement::OutputCache,
            Requirement::LanguageModels,
            Requirement::ConnectionLifetime,
        ],
    }
}

/// What an application needs.
pub fn requirements(kind: Kind) -> (r: Vec<Requirement>)
    ensures
        r@ == required(kind),
{
    let mut r: Vec<Requirement> = Vec::new();
    match kind {
        Kind::Inspector => r.push(Requirement::ApiClient),
        Kind::Devices => r.push(Requirement::ApiClient),
        Kind::Headless => {
            r.push(Requirement::Session);
            r.push(Requirement::Workspace);
            r.push(Requirement::Media);
        },
        Kind::Cli => {
            r.push(Requirement::Session);
            r.push(Requirement::Workspace);
            r.push(Requirement::OutputCache);
        },
        Kind::Tui => {
            r.push(Requirement::Session);
            r.push(Requirement::Workspace);
            r.push(Requirement::Ui);
            r.push(Requirement::UiTarget);
            r.push(Requirement::OutputCache);
            r.push(Requirement::LanguageModels);
            r.push(Requirement::ConnectionLifetime);
        },
    }
    proof {
        assert(r@ =~= required(kind));
    }
    r
}

/// Whether arguments are within their bounds.
pub open spec fn within(count: nat, bytes: int, turn_bytes: int) -> bool {
    count <= MAXIMUM_ARGUMENTS && bytes <= turn_bytes + ARGUMENT_BYTES
}

/// What parsing the arguments of an application gives.
pub open spec fn parses(
    kind: Kind,
    args: Seq<Argument>,
    bound: int,
    model_refused: bool,
    r: Result<Prepared, ArgumentError>,
) -> bool {
    match kind {
        Kind::Inspector => match r {
            Ok(Prepared::Inspector(c)) => inspector::Command::parsed(args) == Ok::<
                inspector::Command,
                ArgumentError,
            >(c),
            Ok(_) => false,
            Err(e) => inspector::Command::parsed(args) == Err::<inspector::Command, ArgumentError>(
                e,
            ),
        },
        Kind::Devices => if devices::any_opaque(args) {
            r matches Err(ArgumentError::NotUtf8(i)) && i < args.len()
        } else {
            match r {
                Ok(Prepared::Devices(c)) => devices::Command::parsed(args) == Ok::<
                    devices::Command,
                    ArgumentError,
                >(c),
                Ok(_) => false,
                Err(e) => devices::Command::parsed(args) == Err::<devices::Command, ArgumentError>(
                    e,
                ),
            }
        },
        Kind::Cli => match r {
            Ok(Prepared::Cli(c)) => SessionCommand::parsed(args) == Ok::<
                SessionCommand,
                ArgumentError,
            >(c),
            Ok(_) => false,
            Err(e) => SessionCommand::parsed(args) == Err::<SessionCommand, ArgumentError>(e),
        },
        Kind::Headless => match r {
            Ok(Prepared::Headless(c)) => arguments::CommandView::parsed(args, bound, model_refused)
                == Ok::<arguments::CommandView, ArgumentError>(c@),
            Ok(_) => false,
            Err(e) => arguments::CommandView::parsed(args, bound, model_refused) == Err::<
                arguments::CommandView,
                ArgumentError,
            >(e),
        },
        Kind::Tui => match r {
            Ok(Prepared::Tui(c)) => session_command::tui_parsed(args) == Ok::<
                SessionCommand,
                ArgumentError,
            >(c),
            Ok(_) => false,
            Err(e) => session_command::tui_parsed(args) == Err::<SessionCommand, ArgumentError>(e),
        },
    }
}

fn parse(kind: Kind, args: &Vec<Argument>, bound: usize, model_refused: bool) -> (r: Result<
    Prepared,
    ArgumentError,
>)
    ensures
        parses(kind, args@, bound as int, model_refused, r),
{
    match kind {
        Kind::Inspector => match inspector::Command::parse(args) {
            Ok(c) => Ok(Prepared::Inspector(c)),
            Err(e) => Err(e),
        },
        Kind::Devices => match devices::Command::parse(args) {
            Ok(c) => Ok(Prepared::Devices(c)),
            Err(e) => Err(e),
        },
        Kind::Cli => match SessionCommand::parse(args) {
            Ok(c) => Ok(Prepared::Cli(c)),
            Err(e) => Err(e),
        },
        Kind::Headless => match Command::parse(args, bound, model_refused) {
            Ok(c) => Ok(Prepared::Headless(c)),
            Err(e) => Err(e),
        },
        Kind::Tui => match parse_tui(args) {
            Ok(c) => Ok(Prepared::Tui(c)),
            Err(e) => Err(e),
        },
    }
}

/// What decides on preparing an application besides its arguments.
#[derive(Debug)]
pub struct Surroundings {
    /// Whether there is no configuration.
    pub null: bool,
    /// The bytes that an input may have.
    pub turn_bytes: usize,
    /// The bytes that an invocation may have.
    pub invocation_bytes: usize,
    /// Whether the owner of the models refuses the model that is named.
    pub model_refused: bool,
    /// Why the terminal cannot be used.
    pub terminal: Option<String>,
}

/// The arguments of an application.
#[derive(Debug)]
pub struct Factory {
    kind: Kind,
    arguments: Vec<Argument>,
    bytes: usize,
    diagnostic: Option<String>,
}

/// What a [`Factory`] says.
pub struct FactoryView {
    pub kind: Kind,
    pub arguments: Seq<Argument>,
    /// The bytes of the arguments.
    pub bytes: usize,
    pub diagnostic: Option<Seq<char>>,
}

impl View for Factory {
    type V = FactoryView;

    closed spec fn view(&self) -> FactoryView {
        FactoryView {
            kind: self.kind,
            arguments: self.arguments@,
            bytes: self.bytes,
            diagnostic: crate::scene::optional(self.diagnostic),
        }
    }
}

/// What preparing an application gives.
pub open spec fn prepares(
    v: FactoryView,
    s: Surroundings,
    r: Result<Prepared, Refusal>,
) -> bool {
    if !s.null {
        r matches Err(Refusal::Configuration)
    } else if !within(v.arguments.len(), v.bytes as int, s.turn_bytes as int) {
        r matches Err(Refusal::Bound)
    } else {
        match r {
            Ok(p) => parses(
                v.kind,
                v.arguments,
                s.invocation_bytes as int,
                s.model_refused,
                Ok(p),
            ) && (v.kind is Tui ==> s.terminal is None),
            Err(Refusal::Arguments(e)) => parses(
                v.kind,
                v.arguments,
                s.invocation_bytes as int,
                s.model_refused,
                Err(e),
            ),
            Err(Refusal::Terminal(t)) => {
                &&& v.kind is Tui
                &&& s.terminal matches Some(u) && u@ == t@
                &&& session_command::tui_parsed(v.arguments) is Ok
            },
            Err(_) => false,
        }
    }
}

impl Factory {
    /// Keeps the arguments of an application. Nothing is prepared or started.
    pub fn new(kind: Kind, arguments: Vec<Argument>, bytes: usize) -> (r: Factory)
        ensures
            r@ == (FactoryView { kind, arguments: arguments@, bytes, diagnostic: None }),
    {
        Factory { kind, arguments, bytes, diagnostic: None }
    }

    /// What preparing the application gives.
    fn prepare_inner(&self, s: &Surroundings) -> (r: Result<Prepared, Refusal>)
        ensures
            prepares(self@, *s, r),
    {
        if !s.null {
            return Err(Refusal::Configuration);
        }
        if self.arguments.len() > MAXIMUM_ARGUMENTS || self.bytes > s.turn_bytes.saturating_add(
            ARGUMENT_BYTES,
        ) {
            return Err(Refusal::Bound);
        }
        match parse(self.kind, &self.arguments, s.invocation_bytes, s.model_refused) {
            Err(e) => Err(Refusal::Arguments(e)),
            Ok(p) => {
                if let Kind::Tui = self.kind {
                    if let Some(t) = &s.terminal {
                        return Err(Refusal::Terminal(t.clone()));
                    }
                }
                Ok(p)
            },
        }
    }

    /// Prepares the application. Where that is refused, the start of what is told of it is kept. What
    /// an owner says of a value that it refuses goes in `detail`.
    pub fn prepare(&mut self, s: &Surroundings, detail: &str) -> (r: Result<Prepared, Refusal>)
        ensures
            prepares(old(self)@, *s, r),
            r is Ok ==> final(self)@ == old(self)@,
            r matches Err(e) ==> final(self)@ == (FactoryView {
                diagnostic: Some(
                    display::prefix_within(
                        told(old(self)@.kind, e, old(self)@.arguments, detail@),
                        DIAGNOSTIC_BYTES as int,
                    ),
                ),
                ..old(self)@
            }),
    {
        let r = self.prepare_inner(s);
        if let Err(e) = &r {
            let message = e.tell(self.kind, &self.arguments, detail);
            self.diagnostic = Some(bounded(message.as_str(), DIAGNOSTIC_BYTES).to_owned());
        }
        r
    }

    /// Takes what is told of arguments that were refused.
    pub fn take_diagnostic(&mut self) -> (r: Option<String>)
        ensures
            crate::scene::optional(r) == old(self)@.diagnostic,
            final(self)@ == (FactoryView { diagnostic: None, ..old(self)@ }),
    {
        let mut r: Option<String> = None;
        std::mem::swap(&mut r, &mut self.diagnostic);
        r
    }
}

/// Why an application is not run.
#[derive(Clone, Copy, Debug, PartialEq, Eq, Structural)]
pub enum RunError {
    ShuttingDown,
    AlreadyStarted,
}

/// The one run of an application.
#[derive(Clone, Copy, Debug, PartialEq, Eq, Structural)]
pub struct Entry {
    pub started: bool,
    pub stopped: bool,
}

impl Entry {
    pub fn new() -> (r: Entry)
        ensures
            r == (Entry { started: false, stopped: false }),
    {
        Entry { started: false, stopped: false }
    }

    /// What running the application leads to.
    pub open spec fn running(self) -> (Entry, Result<(), RunError>) {
        if self.stopped {
            (self, Err(RunError::ShuttingDown))
        } else if self.started {
            (self, Err(RunError::AlreadyStarted))
        } else {
            (Entry { started: true, ..self }, Ok(()))
        }
    }

    /// Runs the application, unless it was stopped or run before.
    pub fn run(&mut self) -> (r: Result<(), RunError>)
        ensures
            (*final(self), r) == old(self).running(),
    {
        if self.stopped {
            return Err(RunError::ShuttingDown);
        }
        if self.started {
            return Err(RunError::AlreadyStarted);
        }
        self.started = true;
        Ok(())
    }

    /// Stops the application, whether it was run or not.
    pub fn stop(&mut self)
        ensures
            *final(self) == (Entry { started: true, stopped: true }),
    {
        self.started = true;
        self.stopped = true;
    }
}

/// Who has the terminal of the process.
#[derive(Clone, Copy, Debug, PartialEq, Eq, Structural)]
pub struct TerminalLease {
    pub in_use: bool,
}

impl TerminalLease {
    /// Takes the terminal, unless another application has it.
    pub fn acquire(&mut self) -> (r: Result<(), &'static str>)
        ensures
            final(self).in_use,
            r is Ok <==> !old(self).in_use,
            r matches Err(e) ==> e@ == "the process terminal already has an application owner"@,
    {
        if self.in_use {
            return Err("the process terminal already has an application owner");
        }
        self.in_use = true;
        Ok(())
    }

    /// Gives the terminal back.
    pub fn release(&mut self)
        ensures
            !final(self).in_use,
    {
        self.in_use = false;
    }
}

/// An application runs at most once, and never after it was stopped.
pub proof fn law_runs_once(e: Entry)
    ensures
        e.running().0.running().1 is Err,
        e.stopped ==> e.running().1 == Err::<(), RunError>(RunError::ShuttingDown),
{
}

/// What is told of a refused preparation is the longest start of it within its bound.
pub proof fn law_diagnostic_bounded(message: Seq<char>)
    ensures
        crate::text::size(display::prefix_within(message, DIAGNOSTIC_BYTES as int))
            <= DIAGNOSTIC_BYTES,
        crate::text::size(message) <= DIAGNOSTIC_BYTES ==> display::prefix_within(
            message,
            DIAGNOSTIC_BYTES as int,
        ) == message,
{
    display::law_bounded(message, DIAGNOSTIC_BYTES as int);
}

/// What each application needs.
pub proof fn law_required()
    ensures
        required(Kind::Inspector) == seq![Requirement::ApiClient],
        required(Kind::Devices) == seq![Requirement::ApiClient],
        required(Kind::Headless).contains(Requirement::Session) && required(Kind::Headless).contains(
            Requirement::Workspace,
        ) && required(Kind::Headless).contains(Requirement::Media),
        required(Kind::Headless).len() == 3 && required(Kind::Cli).len() == 3 && required(
            Kind::Tui,
        ).len() == 7,
        required(Kind::Cli).contains(Requirement::OutputCache) && required(Kind::Cli).contains(
            Requirement::Session,
        ),
        required(Kind::Tui).contains(Requirement::Ui) && required(Kind::Tui).contains(
            Requirement::UiTarget,
        ) && required(Kind::Tui).contains(Requirement::LanguageModels) && required(
            Kind::Tui,
        ).contains(Requirement::ConnectionLifetime),
{
    let h = required(Kind::Headless);
    assert(h[0] == Requirement::Session && h[1] == Requirement::Workspace && h[2]
        == Requirement::Media);
    let c = required(Kind::Cli);
    assert(c[0] == Requirement::Session && c[2] == Requirement::OutputCache);
    let t = required(Kind::Tui);
    assert(t[2] == Requirement::Ui && t[3] == Requirement::UiTarget && t[5]
        == Requirement::LanguageModels && t[6] == Requirement::ConnectionLifetime);
}

/// An application takes 2,048 arguments at most, with 64 KiB beyond the bytes of a turn.
pub proof fn law_argument_bounds(count: nat, bytes: int, turn_bytes: int)
    ensures
        within(count, bytes, turn_bytes) <==> count <= 2048 && bytes <= turn_bytes + 65536,
{
}

/// An application is prepared only with an empty configuration and arguments within their bounds,
/// and the fullscreen one only on a terminal that can show it; what it is prepared as is its own
/// kind.
pub proof fn law_prepared(v: FactoryView, s: Surroundings, p: Prepared)
    requires
        prepares(v, s, Ok(p)),
    ensures
        s.null,
        v.arguments.len() <= 2048,
        v.bytes <= s.turn_bytes + 65536,
        v.kind is Tui ==> s.terminal is None,
        v.kind is Inspector <==> p is Inspector,
        v.kind is Devices <==> p is Devices,
        v.kind is Headless <==> p is Headless,
        v.kind is Cli <==> p is Cli,
        v.kind is Tui <==> p is Tui,
{
}

/// What is told of an application that is not prepared.
pub proof fn law_refusals(kind: Kind, args: Seq<Argument>, detail: Seq<char>, problem: String)
    ensures
        told(kind, Refusal::Configuration, args, detail)
            == "terminal application configuration must be null"@,
        told(kind, Refusal::Bound, args, detail)
            == "terminal arguments exceed their count or byte bound"@,
        told(kind, Refusal::Terminal(problem), args, detail) == arguments::hinted(problem@),
        forall|e: ArgumentError| #[trigger]
            told(Kind::Headless, Refusal::Arguments(e), args, detail) == arguments::hinted(
                e.explained(args, detail),
            ),
        forall|e: ArgumentError| #[trigger]
            told(Kind::Inspector, Refusal::Arguments(e), args, detail) == inspector::HELP@,
{
}

/// An application starts once, and not after it was stopped.
pub proof fn law_starting(e: Entry)
    ensures
        e.running().1 is Ok <==> !e.stopped && !e.started,
        e.stopped ==> e.running().1 == Err::<(), RunError>(RunError::ShuttingDown),
        !e.stopped && e.started ==> e.running().1 == Err::<(), RunError>(RunError::AlreadyStarted),
        e.running().1 is Err ==> e.running().0 == e,
{
}

} // verus!
