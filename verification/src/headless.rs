//! The course of a headless run and the exit code it ends with.
use vstd::prelude::*;
use vstd::string::*;
use crate::number;
use crate::number::decimal;
use crate::output::{CliEvent, FactBody};
use crate::text::same;

verus! {

/// How a turn ended.
#[derive(Debug)]
pub enum TurnOutcome {
    Completed,
    Cancelled,
    Failed { code: String, message: String },
    PartialFailed { code: String, message: String },
    Interrupted { reason: String },
    BudgetExceeded { dimension: String, consumed: u64, limit: u64 },
}

impl TurnOutcome {
    /// What to tell about an outcome that is not what was asked for.
    pub open spec fn diagnosed(self) -> Option<Seq<char>> {
        match self {
            TurnOutcome::Failed { code, message } => Some(code@ + ": "@ + message@),
            TurnOutcome::PartialFailed { code, message } => Some(code@ + ": "@ + message@),
            TurnOutcome::Interrupted { reason } => Some("interrupted: "@ + reason@),
            TurnOutcome::BudgetExceeded { dimension, consumed, limit } => Some(
                "turn budget exceeded for "@ + dimension@ + ": consumed "@ + number::digits(
                    consumed as nat,
                ) + ", limit "@ + number::digits(limit as nat),
            ),
            _ => None,
        }
    }

    /// The line that reports the outcome, if it needs one.
    pub fn diagnostic(&self) -> (r: Option<String>)
        ensures
            match r {
                Some(line) => self.diagnosed() == Some(line@),
                None => self.diagnosed() is None,
            },
    {
        match self {
            TurnOutcome::Failed { code, message } => {
                let mut line: String = code.as_str().to_owned();
                line.append(": ");
                line.append(message.as_str());
                Some(line)
            },
            TurnOutcome::PartialFailed { code, message } => {
                let mut line: String = code.as_str().to_owned();
                line.append(": ");
                line.append(message.as_str());
                Some(line)
            },
            TurnOutcome::Interrupted { reason } => {
                let mut line: String = "interrupted: ".to_owned();
                line.append(reason.as_str());
                Some(line)
            },
            TurnOutcome::BudgetExceeded { dimension, consumed, limit } => {
                let mut line: String = "turn budget exceeded for ".to_owned();
                line.append(dimension.as_str());
                line.append(": consumed ");
                line.append(decimal(*consumed).as_str());
                line.append(", limit ");
                line.append(decimal(*limit).as_str());
                Some(line)
            },
            TurnOutcome::Completed => None,
            TurnOutcome::Cancelled => None,
        }
    }
}

/// The exit code of a run that was interrupted.
pub const INTERRUPTED: u8 = 130;

/// What a turn left behind.
#[derive(Debug)]
pub struct Finished {
    /// The outcome, or nothing where the turn failed with an error.
    pub outcome: Option<TurnOutcome>,
    pub cancellation_requested: bool,
}

/// How a headless run ends.
#[derive(Clone, Copy, Debug, PartialEq, Eq, Structural)]
pub enum Ending {
    /// With this code, and nothing more to say.
    Exit(u8),
    /// With this code, once the outcome is diagnosed.
    Diagnose(u8),
    /// With the code of the error that stopped the output.
    OutputFailed,
    /// With the code of the error that the turn failed with.
    TurnFailed,
    /// With the code of an error: the turn was never reported.
    WorkerExited,
}

/// An interrupt goes before everything; then an output error; then the turn itself.
pub open spec fn ending(cancelled: bool, output_failed: bool, finished: Option<Finished>) -> Ending {
    if cancelled {
        Ending::Exit(INTERRUPTED)
    } else if output_failed {
        Ending::OutputFailed
    } else {
        match finished {
            None => Ending::WorkerExited,
            Some(f) => match f.outcome {
                None => Ending::TurnFailed,
                Some(outcome) => if f.cancellation_requested {
                    Ending::Exit(INTERRUPTED)
                } else if outcome is Completed {
                    Ending::Diagnose(0)
                } else {
                    Ending::Diagnose(1)
                },
            },
        }
    }
}

pub fn decide_ending(cancelled: bool, output_failed: bool, finished: &Option<Finished>) -> (r:
    Ending)
    ensures
        r == ending(cancelled, output_failed, *finished),
{
    if cancelled {
        return Ending::Exit(INTERRUPTED);
    }
    if output_failed {
        return Ending::OutputFailed;
    }
    match finished {
        None => Ending::WorkerExited,
        Some(f) => match &f.outcome {
            None => Ending::TurnFailed,
            Some(outcome) => {
                if f.cancellation_requested {
                    Ending::Exit(INTERRUPTED)
                } else {
                    match outcome {
                        TurnOutcome::Completed => Ending::Diagnose(0),
                        _ => Ending::Diagnose(1),
                    }
                }
            },
        },
    }
}

/// A run reports success exactly where its turn completed, was written out and was not
/// interrupted.
pub proof fn law_success(cancelled: bool, output_failed: bool, finished: Option<Finished>)
    ensures
        (ending(cancelled, output_failed, finished) == Ending::Exit(0) || ending(
            cancelled,
            output_failed,
            finished,
        ) == Ending::Diagnose(0)) <==> !cancelled && !output_failed && finished is Some
            && finished->0.outcome is Some && finished->0.outcome->0 is Completed
            && !finished->0.cancellation_requested,
{
}

/// What a headless run works on.
#[derive(Clone, Copy, Debug, PartialEq, Eq, Structural)]
pub enum Stage {
    ReadTask,
    OpenSession,
    RunExtension,
    LoadContent,
    NameMessage,
    ArmSignal,
    RunTurn,
    /// Ended with this code.
    Ended(u8),
}

/// What became of a stage.
#[derive(Clone, Copy, Debug, PartialEq, Eq, Structural)]
pub enum StageEvent {
    Done,
    /// The stage failed; the error has this exit code.
    Failed(u8),
    /// The Session command operation ended with this code.
    ExtensionExited(u8),
    /// The turn was driven to its end, which has this code.
    TurnEnded(u8),
    /// The application was asked to stop.
    Stopped,
}

/// A headless run: what it was asked for, and how far it is.
#[derive(Clone, Copy, Debug, PartialEq, Eq, Structural)]
pub struct Run {
    pub has_task: bool,
    pub has_extension: bool,
    pub stage: Stage,
}

impl Run {
    /// The stage behind a stage that was done.
    pub open spec fn following(self) -> Stage {
        match self.stage {
            Stage::ReadTask => Stage::OpenSession,
            Stage::OpenSession => if self.has_extension {
                Stage::RunExtension
            } else {
                Stage::LoadContent
            },
            Stage::RunExtension => Stage::LoadContent,
            Stage::LoadContent => Stage::NameMessage,
            Stage::NameMessage => Stage::ArmSignal,
            Stage::ArmSignal => Stage::RunTurn,
            Stage::RunTurn => Stage::RunTurn,
            Stage::Ended(code) => Stage::Ended(code),
        }
    }

    /// Where an event leads. A run that has ended stays so. An operation that failed, or after
    /// which there is no task, is the end of the run.
    pub open spec fn advanced(self, event: StageEvent) -> Stage {
        match self.stage {
            Stage::Ended(code) => Stage::Ended(code),
            _ => match event {
                StageEvent::Stopped => Stage::Ended(0),
                StageEvent::Failed(code) => Stage::Ended(code),
                StageEvent::ExtensionExited(code) => if self.stage is RunExtension {
                    if code != 0 || !self.has_task {
                        Stage::Ended(code)
                    } else {
                        Stage::LoadContent
                    }
                } else {
                    self.stage
                },
                StageEvent::TurnEnded(code) => if self.stage is RunTurn {
                    Stage::Ended(code)
                } else {
                    self.stage
                },
                StageEvent::Done => self.following(),
            },
        }
    }

    pub fn new(has_task: bool, has_extension: bool) -> (r: Run)
        ensures
            r == (Run { has_task, has_extension, stage: Stage::ReadTask }),
    {
        Run { has_task, has_extension, stage: Stage::ReadTask }
    }

    /// Takes the result of the current stage.
    pub fn advance(&mut self, event: StageEvent)
        ensures
            *final(self) == (Run { stage: old(self).advanced(event), ..*old(self) }),
    {
        self.stage = match self.stage {
            Stage::Ended(code) => Stage::Ended(code),
            stage => match event {
                StageEvent::Stopped => Stage::Ended(0),
                StageEvent::Failed(code) => Stage::Ended(code),
                StageEvent::ExtensionExited(code) => match stage {
                    Stage::RunExtension => if code != 0 || !self.has_task {
                        Stage::Ended(code)
                    } else {
                        Stage::LoadContent
                    },
                    _ => stage,
                },
                StageEvent::TurnEnded(code) => match stage {
                    Stage::RunTurn => Stage::Ended(code),
                    _ => stage,
                },
                StageEvent::Done => match stage {
                    Stage::ReadTask => Stage::OpenSession,
                    Stage::OpenSession => if self.has_extension {
                        Stage::RunExtension
                    } else {
                        Stage::LoadContent
                    },
                    Stage::RunExtension => Stage::LoadContent,
                    Stage::LoadContent => Stage::NameMessage,
                    Stage::NameMessage => Stage::ArmSignal,
                    Stage::ArmSignal => Stage::RunTurn,
                    Stage::RunTurn => Stage::RunTurn,
                    Stage::Ended(code) => Stage::Ended(code),
                },
            },
        };
    }
}

/// How an operation ends that was raced against an interrupt: interrupted goes first, then the
/// operation's own error, then that of the output.
#[derive(Clone, Copy, Debug, PartialEq, Eq, Structural)]
pub enum OperationEnding {
    Interrupted,
    Succeeded,
    ActionFailed,
    FlushFailed,
}

/// `action` is the result of the operation, or nothing where an interrupt came first.
pub fn decide_operation(action: Option<bool>, flushed: bool, interrupted_later: bool) -> (r:
    OperationEnding)
    ensures
        r == (if action is None || interrupted_later {
            OperationEnding::Interrupted
        } else if !action->0 {
            OperationEnding::ActionFailed
        } else if !flushed {
            OperationEnding::FlushFailed
        } else {
            OperationEnding::Succeeded
        }),
{
    match action {
        None => OperationEnding::Interrupted,
        Some(succeeded) => {
            if interrupted_later {
                OperationEnding::Interrupted
            } else if !succeeded {
                OperationEnding::ActionFailed
            } else if !flushed {
                OperationEnding::FlushFailed
            } else {
                OperationEnding::Succeeded
            }
        },
    }
}

/// Whether a directory is the one that a session was created in. A directory whose path is not
/// UTF-8 never is.
pub fn workspace_matches(canonical: Option<&str>, durable: &str) -> (r: bool)
    ensures
        r == (canonical matches Some(path) && path@ == durable@),
{
    match canonical {
        Some(path) => same(path, durable),
        None => false,
    }
}

/// What is told of an input that was submitted. Values of other owners come as the JSON that they
/// are written in.
#[derive(Debug)]
pub enum MessageEvent {
    Accepted { session_id: String, message_id: String, accepted_control_seq: u64 },
    /// A turn has taken the input.
    Claimed { session_id: String, message_id: String, turn_id: String, entered_fact_seq: u64 },
    Fact { session_id: String, fact: String, body: FactBody, durable_seq: u64 },
    Outcome {
        session_id: String,
        turn_id: String,
        outcome: String,
        described: String,
        durable_seq: u64,
    },
}

/// What is done about an event of an input.
#[derive(Debug)]
pub struct Told {
    pub event: CliEvent,
    /// Whether the questions of the turn are watched from now on.
    pub watch: bool,
    /// Whether the line is finished after it.
    pub finish: bool,
}

/// Takes in an event of an input.
pub fn message_event(e: MessageEvent) -> (r: Told)
    ensures
        r.event == (match e {
            MessageEvent::Accepted { session_id, message_id, accepted_control_seq } =>
                CliEvent::Message { session_id, message_id, accepted_control_seq },
            MessageEvent::Claimed { session_id, message_id, turn_id, entered_fact_seq } =>
                CliEvent::Turn { session_id, message_id, turn_id, entered_fact_seq },
            MessageEvent::Fact { session_id, fact, body, durable_seq } => CliEvent::Fact {
                session_id,
                fact,
                body,
                durable_seq,
            },
            MessageEvent::Outcome { session_id, turn_id, outcome, described, durable_seq } =>
                CliEvent::Outcome { session_id, turn_id, outcome, described, durable_seq },
        }),
        r.watch == (e is Claimed),
        r.finish == (e is Outcome),
{
    match e {
        MessageEvent::Accepted { session_id, message_id, accepted_control_seq } => Told {
            event: CliEvent::Message { session_id, message_id, accepted_control_seq },
            watch: false,
            finish: false,
        },
        MessageEvent::Claimed { session_id, message_id, turn_id, entered_fact_seq } => Told {
            event: CliEvent::Turn { session_id, message_id, turn_id, entered_fact_seq },
            watch: true,
            finish: false,
        },
        MessageEvent::Fact { session_id, fact, body, durable_seq } => Told {
            event: CliEvent::Fact { session_id, fact, body, durable_seq },
            watch: false,
            finish: false,
        },
        MessageEvent::Outcome { session_id, turn_id, outcome, described, durable_seq } => Told {
            event: CliEvent::Outcome { session_id, turn_id, outcome, described, durable_seq },
            watch: false,
            finish: true,
        },
    }
}

/// What is observed of a conversation.
#[derive(Debug)]
pub enum SessionObservation {
    Control { record: String, durable_control_seq: u64 },
    Fact {
        fact: String,
        body: FactBody,
        durable_fact_seq: u64,
        /// The turn that it ends, and how.
        terminal: Option<TurnEnd>,
    },
}

/// How a turn ended.
#[derive(Debug)]
pub struct TurnEnd {
    pub turn_id: String,
    pub outcome: String,
    pub described: String,
}

/// What is told of an observation: the fact that ends a turn is followed by how it ended, and then
/// the line is finished.
pub fn render_observation(o: SessionObservation, session: &str) -> (r: (
    CliEvent,
    Option<CliEvent>,
))
    ensures
        match o {
            SessionObservation::Control { record, durable_control_seq } => {
                &&& r.0 matches CliEvent::Control {
                    session_id,
                    record: shown,
                    durable_control_seq: seq,
                }
                &&& session_id@ == session@
                &&& shown == record
                &&& seq == durable_control_seq
                &&& r.1 is None
            },
            SessionObservation::Fact { fact, body, durable_fact_seq, terminal } => {
                &&& r.0 matches CliEvent::Fact {
                    session_id,
                    fact: shown,
                    body: told,
                    durable_seq,
                }
                &&& session_id@ == session@
                &&& shown == fact
                &&& told == body
                &&& durable_seq == durable_fact_seq
                &&& match terminal {
                    None => r.1 is None,
                    Some(end) => r.1 matches Some(
                        CliEvent::Outcome {
                            session_id: id,
                            turn_id,
                            outcome,
                            described,
                            durable_seq: seq,
                        },
                    ) && id@ == session@ && turn_id == end.turn_id && outcome == end.outcome
                        && described == end.described && seq == durable_fact_seq,
                }
            },
        },
{
    match o {
        SessionObservation::Control { record, durable_control_seq } => (
            CliEvent::Control { session_id: session.to_owned(), record, durable_control_seq },
            None,
        ),
        SessionObservation::Fact { fact, body, durable_fact_seq, terminal } => {
            let outcome: Option<CliEvent> = match terminal {
                None => None,
                Some(end) => Some(
                    CliEvent::Outcome {
                        session_id: session.to_owned(),
                        turn_id: end.turn_id,
                        outcome: end.outcome,
                        described: end.described,
                        durable_seq: durable_fact_seq,
                    },
                ),
            };
            (
                CliEvent::Fact {
                    session_id: session.to_owned(),
                    fact,
                    body,
                    durable_seq: durable_fact_seq,
                },
                outcome,
            )
        },
    }
}

/// Whether an existing conversation is continued from a directory: where one is named, it must be
/// the one that the conversation has.
pub fn check_workspace(named: Option<Option<&str>>, durable: &str) -> (r: Result<(), &'static str>)
    ensures
        match named {
            None => r is Ok,
            Some(canonical) => if canonical matches Some(path) && path@ == durable@ {
                r is Ok
            } else {
                r matches Err(s) && s@ == "--cwd does not match the durable Session workspace"@
            },
        },
{
    match named {
        None => Ok(()),
        Some(canonical) => if workspace_matches(canonical, durable) {
            Ok(())
        } else {
            Err("--cwd does not match the durable Session workspace")
        },
    }
}

/// An interrupted run ends with 130 whatever else happened, and one whose turn was asked to stop
/// does too; otherwise a failed output is told before anything about the turn.
pub proof fn law_interrupted(cancelled: bool, output_failed: bool, finished: Option<Finished>)
    ensures
        cancelled ==> ending(cancelled, output_failed, finished) == Ending::Exit(130),
        !cancelled && output_failed ==> ending(cancelled, output_failed, finished)
            == Ending::OutputFailed,
        !cancelled && !output_failed ==> {
            let e = ending(cancelled, output_failed, finished);
            &&& e == Ending::WorkerExited <==> finished is None
            &&& e == Ending::TurnFailed <==> finished is Some && finished->0.outcome is None
            &&& e == Ending::Exit(130) <==> finished is Some && finished->0.outcome is Some
                && finished->0.cancellation_requested
            &&& e == Ending::Diagnose(0) <==> finished is Some && finished->0.outcome
                == Some(TurnOutcome::Completed) && !finished->0.cancellation_requested
            &&& e == Ending::Diagnose(1) <==> finished is Some && finished->0.outcome is Some && !(
            finished->0.outcome->0 is Completed) && !finished->0.cancellation_requested
        },
{
}

/// What a turn that did not complete is told as; one that completed or was cancelled is told as
/// nothing.
pub proof fn law_diagnosed(code: String, message: String, consumed: u64, limit: u64)
    ensures
        TurnOutcome::Completed.diagnosed() is None,
        TurnOutcome::Cancelled.diagnosed() is None,
        (TurnOutcome::Failed { code, message }).diagnosed() == Some(code@ + ": "@ + message@),
        (TurnOutcome::PartialFailed { code, message }).diagnosed() == Some(code@ + ": "@ + message@),
        (TurnOutcome::Interrupted { reason: message }).diagnosed() == Some(
            "interrupted: "@ + message@,
        ),
        (TurnOutcome::BudgetExceeded { dimension: code, consumed, limit }).diagnosed() == Some(
            "turn budget exceeded for "@ + code@ + ": consumed "@ + number::digits(consumed as nat)
                + ", limit "@ + number::digits(limit as nat),
        ),
{
}

/// A run goes through its stages one after another up to its turn, which ends it; the Session
/// command operation is run only where there is one, and ends the run where it failed or there is
/// no task behind it. A stage that fails ends the run with its code, a request to stop with
/// success, and nothing leads out of the end.
pub proof fn law_stages(r: Run, event: StageEvent, code: u8)
    ensures
        ({
            let at = |stage: Stage| Run { stage, ..r };
            &&& at(Stage::ReadTask).advanced(StageEvent::Done) == Stage::OpenSession
            &&& at(Stage::OpenSession).advanced(StageEvent::Done) == (if r.has_extension {
                Stage::RunExtension
            } else {
                Stage::LoadContent
            })
            &&& at(Stage::LoadContent).advanced(StageEvent::Done) == Stage::NameMessage
            &&& at(Stage::NameMessage).advanced(StageEvent::Done) == Stage::ArmSignal
            &&& at(Stage::ArmSignal).advanced(StageEvent::Done) == Stage::RunTurn
            &&& at(Stage::RunTurn).advanced(StageEvent::TurnEnded(code)) == Stage::Ended(code)
            &&& at(Stage::RunExtension).advanced(StageEvent::ExtensionExited(code)) == (if code == 0
                && r.has_task {
                Stage::LoadContent
            } else {
                Stage::Ended(code)
            })
            &&& at(Stage::Ended(code)).advanced(event) == Stage::Ended(code)
        }),
        !(r.stage is Ended) ==> r.advanced(StageEvent::Failed(code)) == Stage::Ended(code),
        !(r.stage is Ended) ==> r.advanced(StageEvent::Stopped) == Stage::Ended(0),
        r.advanced(event) is RunTurn && !(r.stage is RunTurn) ==> r.stage is ArmSignal,
{
}

} // verus!
