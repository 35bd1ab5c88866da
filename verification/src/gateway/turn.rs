//! The turn of one message: from the queue of its thread to a delivered reply.
//!
//! A `Turn` decides what is done next; its driver does it and reports back. A reply is recorded in
//! the history before it is delivered, and the row of the message is completed only once its reply
//! is with the channel. What the history refuses is never delivered, and leaves the row open.

use crate::gateway::attachments::{
    append_note, attached_paths, parse_attach_markers, strip_attach_markers, text_with_note,
    without_markers,
};
use crate::gateway::commands::{
    command, command_of, command_view, job_command, job_command_of, Command, JobCommand,
};
use crate::gateway::delivery::DeliveryEnd;
use crate::gateway::run::RunResult;
use crate::gateway::voice::VoiceResult;
use crate::text::{chars_of, find_last, last_match, maybe, texts, trim, trimmed};
use vstd::prelude::*;

verus! {

/// What the sender is told where a conversation could not be prepared.
pub const SESSION_SETUP_FAILURE: &'static str =
    "Push could not prepare this conversation. Check the local logs, then resend.";

/// Who wrote a reply.
#[derive(Debug, Clone, Copy, PartialEq, Eq, Structural)]
pub enum OutboundOrigin {
    Gateway,
    Backend,
}

/// Error and completion labels for one reply.
#[derive(Debug, Clone, Copy)]
pub struct ReplyLabels {
    /// What failed where the reply could not be recorded.
    pub record: &'static str,
    /// What failed where the recorded reply could not be delivered.
    pub deliver: &'static str,
    /// Why the row is complete.
    pub completion: &'static str,
}

/// What belongs to the end of a turn besides the reply.
#[derive(Debug, Clone, Copy, PartialEq, Eq, Structural)]
pub enum Closing {
    /// Nothing.
    Silent,
    /// The session is saved before delivery; after it the files go out and the message is marked
    /// as answered.
    Success,
    /// The message is marked as not answered.
    Failure,
}

/// A reply on its way. The text type `S` is `String` in the program and a sequence of characters
/// in contracts; `L` is the type of a list of texts.
#[derive(Debug)]
pub struct Answer<S, L> {
    pub text: S,
    pub origin: OutboundOrigin,
    pub labels: ReplyLabels,
    pub closing: Closing,
    /// The session that the backend names.
    pub session: Option<S>,
    /// The files that the backend attaches.
    pub paths: L,
}

impl View for Answer<String, Vec<String>> {
    type V = Answer<Seq<char>, Seq<Seq<char>>>;

    open spec fn view(&self) -> Answer<Seq<char>, Seq<Seq<char>>> {
        Answer {
            text: self.text@,
            origin: self.origin,
            labels: self.labels,
            closing: self.closing,
            session: maybe(self.session),
            paths: texts(self.paths@),
        }
    }
}

/// What the audit log is told before the task.
#[derive(Debug)]
pub enum AuditEntry<S> {
    Failed { event: &'static str, detail: S },
    /// The backend replied with this.
    BackendCompleted(S),
}

impl View for AuditEntry<String> {
    type V = AuditEntry<Seq<char>>;

    open spec fn view(&self) -> AuditEntry<Seq<char>> {
        match self {
            AuditEntry::Failed { event, detail } => AuditEntry::Failed {
                event: *event,
                detail: detail@,
            },
            AuditEntry::BackendCompleted(reply) => AuditEntry::BackendCompleted(reply@),
        }
    }
}

/// What the driver does next.
#[derive(Debug)]
pub enum Task<S, L> {
    /// Look for a reply that the history holds for this message.
    ReadOutbound,
    PrepareVoice,
    RunCommand(Command<S>),
    RunJobCommand(JobCommand<S>),
    FindRunner,
    FindSession,
    ResolveWorkDir,
    /// Download the files of the message, and report the note about them.
    PrepareFiles,
    LoadIdentity,
    CheckContext,
    RunBackend { text: S, session: S, is_new: bool, work_dir: S, instructions: S },
    /// Record the reply in the history.
    Record { origin: OutboundOrigin, text: S },
    /// Store that the session is started, under this id where there is one.
    SaveSession(Option<S>),
    /// Deliver the recorded reply.
    Deliver,
    /// Read and send the files; failing at it changes nothing.
    SendFiles(L),
    /// Mark the message as answered or not; failing at it changes nothing.
    FinishActivity(bool),
    /// Audit the reply as sent, where there is one, audit the completion, complete the row.
    Complete { reply: Option<S>, reason: &'static str },
    Stop,
}

impl View for Task<String, Vec<String>> {
    type V = Task<Seq<char>, Seq<Seq<char>>>;

    open spec fn view(&self) -> Task<Seq<char>, Seq<Seq<char>>> {
        match self {
            Task::ReadOutbound => Task::ReadOutbound,
            Task::PrepareVoice => Task::PrepareVoice,
            Task::RunCommand(command) => Task::RunCommand(command@),
            Task::RunJobCommand(command) => Task::RunJobCommand(command@),
            Task::FindRunner => Task::FindRunner,
            Task::FindSession => Task::FindSession,
            Task::ResolveWorkDir => Task::ResolveWorkDir,
            Task::PrepareFiles => Task::PrepareFiles,
            Task::LoadIdentity => Task::LoadIdentity,
            Task::CheckContext => Task::CheckContext,
            Task::RunBackend { text, session, is_new, work_dir, instructions } => Task::RunBackend {
                text: text@,
                session: session@,
                is_new: *is_new,
                work_dir: work_dir@,
                instructions: instructions@,
            },
            Task::Record { origin, text } => Task::Record { origin: *origin, text: text@ },
            Task::SaveSession(session) => Task::SaveSession(maybe(*session)),
            Task::Deliver => Task::Deliver,
            Task::SendFiles(paths) => Task::SendFiles(texts(paths@)),
            Task::FinishActivity(answered) => Task::FinishActivity(*answered),
            Task::Complete { reply, reason } => Task::Complete {
                reply: maybe(*reply),
                reason: *reason,
            },
            Task::Stop => Task::Stop,
        }
    }
}

/// An entry for the audit log, where there is one, and then a task.
#[derive(Debug)]
pub struct Order<S, L> {
    pub audit: Option<AuditEntry<S>>,
    pub task: Task<S, L>,
}

/// The view of an optional audit entry.
pub open spec fn audit_view(audit: Option<AuditEntry<String>>) -> Option<AuditEntry<Seq<char>>> {
    match audit {
        Some(entry) => Some(entry@),
        None => None,
    }
}

impl View for Order<String, Vec<String>> {
    type V = Order<Seq<char>, Seq<Seq<char>>>;

    open spec fn view(&self) -> Order<Seq<char>, Seq<Seq<char>>> {
        Order { audit: audit_view(self.audit), task: self.task@ }
    }
}

/// What the driver reports; errors come as text.
#[derive(Debug)]
pub enum TurnEvent<S> {
    OutboundMissing,
    /// The content of the reply that the history holds.
    OutboundStored(S),
    OutboundFailed(S),
    VoicePrepared(VoiceResult<S>),
    CommandAnswered(S),
    /// The label of the backend.
    RunnerFound(S),
    RunnerMissing,
    SessionFound { session: S, is_new: bool },
    WorkDirFound(S),
    FilesPrepared(S),
    IdentityLoaded(S),
    ContextReady,
    /// The session, the work directory, the identity or the context is not to be had.
    SetupFailed(S),
    BackendRan(RunResult<S>),
    /// The user stopped the run.
    Interrupted,
    Recorded,
    RecordFailed(S),
    SessionSaved,
    SessionSaveFailed(S),
    Delivered,
    DeliveryFailed(S),
    FilesSent,
    ActivityFinished,
    RowCompleted,
}

impl View for TurnEvent<String> {
    type V = TurnEvent<Seq<char>>;

    open spec fn view(&self) -> TurnEvent<Seq<char>> {
        match self {
            TurnEvent::OutboundMissing => TurnEvent::OutboundMissing,
            TurnEvent::OutboundStored(content) => TurnEvent::OutboundStored(content@),
            TurnEvent::OutboundFailed(error) => TurnEvent::OutboundFailed(error@),
            TurnEvent::VoicePrepared(result) => TurnEvent::VoicePrepared(result@),
            TurnEvent::CommandAnswered(reply) => TurnEvent::CommandAnswered(reply@),
            TurnEvent::RunnerFound(label) => TurnEvent::RunnerFound(label@),
            TurnEvent::RunnerMissing => TurnEvent::RunnerMissing,
            TurnEvent::SessionFound { session, is_new } => TurnEvent::SessionFound {
                session: session@,
                is_new: *is_new,
            },
            TurnEvent::WorkDirFound(dir) => TurnEvent::WorkDirFound(dir@),
            TurnEvent::FilesPrepared(note) => TurnEvent::FilesPrepared(note@),
            TurnEvent::IdentityLoaded(text) => TurnEvent::IdentityLoaded(text@),
            TurnEvent::ContextReady => TurnEvent::ContextReady,
            TurnEvent::SetupFailed(error) => TurnEvent::SetupFailed(error@),
            TurnEvent::BackendRan(result) => TurnEvent::BackendRan(result@),
            TurnEvent::Interrupted => TurnEvent::Interrupted,
            TurnEvent::Recorded => TurnEvent::Recorded,
            TurnEvent::RecordFailed(error) => TurnEvent::RecordFailed(error@),
            TurnEvent::SessionSaved => TurnEvent::SessionSaved,
            TurnEvent::SessionSaveFailed(error) => TurnEvent::SessionSaveFailed(error@),
            TurnEvent::Delivered => TurnEvent::Delivered,
            TurnEvent::DeliveryFailed(error) => TurnEvent::DeliveryFailed(error@),
            TurnEvent::FilesSent => TurnEvent::FilesSent,
            TurnEvent::ActivityFinished => TurnEvent::ActivityFinished,
            TurnEvent::RowCompleted => TurnEvent::RowCompleted,
        }
    }
}

/// What the end of the delivery of a stored reply reports to the turn: that the reply reached the
/// channel, or why it could not go on; nothing where the delivery may still be tried again.
pub open spec fn report_of(end: DeliveryEnd, error: Seq<char>) -> Option<TurnEvent<Seq<char>>> {
    match end {
        DeliveryEnd::Reached(_) => Some(TurnEvent::Delivered),
        DeliveryEnd::NotDelivered => None,
        DeliveryEnd::InvalidIndex | DeliveryEnd::HistoryFailed => Some(
            TurnEvent::DeliveryFailed(error),
        ),
    }
}

/// Reports the end of the delivery of a stored reply to the turn.
pub fn delivery_report(end: DeliveryEnd, error: String) -> (event: Option<TurnEvent<String>>)
    ensures
        match event {
            Some(e) => report_of(end, error@) == Some(e@),
            None => report_of(end, error@) is None,
        },
{
    match end {
        DeliveryEnd::Reached(_) => Some(TurnEvent::Delivered),
        DeliveryEnd::NotDelivered => None,
        DeliveryEnd::InvalidIndex | DeliveryEnd::HistoryFailed => Some(
            TurnEvent::DeliveryFailed(error),
        ),
    }
}

/// What a turn waits for.
#[derive(Debug, Clone, Copy, PartialEq, Eq, Structural)]
pub enum TurnStage {
    ReadingOutbound,
    PreparingVoice,
    AnsweringCommand,
    AnsweringJobCommand,
    FindingRunner,
    FindingSession,
    ResolvingWorkDir,
    PreparingFiles,
    LoadingIdentity,
    CheckingContext,
    RunningBackend,
    Recording,
    SavingSession,
    Delivering,
    SendingFiles,
    /// The message is being marked as answered.
    FinishingActivity,
    Completing,
    /// The message is being marked as not answered.
    ClosingActivity,
    Ended,
}

/// The turn of one message.
#[derive(Debug)]
pub struct Turn<S, L> {
    /// The message; what was said, once a voice message is transcribed.
    pub text: S,
    pub has_voice: bool,
    pub has_files: bool,
    /// The label of the backend.
    pub label: S,
    pub session: S,
    pub is_new: bool,
    pub work_dir: S,
    pub instructions: S,
    pub answer: Answer<S, L>,
    pub stage: TurnStage,
}

impl View for Turn<String, Vec<String>> {
    type V = Turn<Seq<char>, Seq<Seq<char>>>;

    open spec fn view(&self) -> Turn<Seq<char>, Seq<Seq<char>>> {
        Turn {
            text: self.text@,
            has_voice: self.has_voice,
            has_files: self.has_files,
            label: self.label@,
            session: self.session@,
            is_new: self.is_new,
            work_dir: self.work_dir@,
            instructions: self.instructions@,
            answer: self.answer@,
            stage: self.stage,
        }
    }
}

/// A message about what failed: the action, and the error behind it.
pub open spec fn failure_detail(action: Seq<char>, error: Seq<char>) -> Seq<char> {
    action + ": "@ + error
}

/// Says what failed in the history.
pub fn history_failure_detail(action: &str, error: &str) -> (detail: String)
    ensures
        detail@ == failure_detail(action@, error@),
{
    let mut detail = action.to_owned();
    detail.append(": ");
    detail.append(error);
    detail
}

/// What an error message says last: what stands behind its last `": "`, trimmed.
pub open spec fn last_reason(message: Seq<char>) -> Seq<char> {
    match last_match(message, ": "@, message.len() as int) {
        Some(at) => trimmed(message.skip(at + ": "@.len())),
        None => trimmed(message),
    }
}

/// A short, user-facing reason from an error message.
pub open spec fn short_reason(message: Seq<char>) -> Seq<char> {
    if last_reason(message).len() == 0 {
        "couldn't reach the agent"@
    } else {
        last_reason(message)
    }
}

/// Extracts a short, user-facing reason from an error message.
pub fn short(message: &str) -> (reason: String)
    ensures
        reason@ == short_reason(message@),
{
    let chars = chars_of(message);
    let sep = chars_of(": ");
    let end: usize = chars.len();
    let reason = match find_last(&chars, &sep) {
        Some(at) => {
            let start: usize = at + sep.len();
            assert(message@.subrange(start as int, message@.len() as int) =~= message@.skip(
                start as int,
            ));
            trim(message.substring_char(start, end))
        },
        None => trim(message),
    };
    if reason.is_empty() {
        "couldn't reach the agent".to_owned()
    } else {
        reason.to_owned()
    }
}

/// The labels of a reply whose recording and delivery share one.
pub open spec fn labels_of(failure: &'static str, completion: &'static str) -> ReplyLabels {
    ReplyLabels { record: failure, deliver: failure, completion }
}

/// A reply that the gateway wrote.
pub open spec fn gateway_answer(text: Seq<char>, labels: ReplyLabels, closing: Closing) -> Answer<
    Seq<char>,
    Seq<Seq<char>>,
> {
    Answer {
        text,
        origin: OutboundOrigin::Gateway,
        labels,
        closing,
        session: None,
        paths: Seq::empty(),
    }
}

/// The reply of a backend, without its attach markers.
pub open spec fn backend_answer(reply: Seq<char>, session: Option<Seq<char>>) -> Answer<
    Seq<char>,
    Seq<Seq<char>>,
> {
    Answer {
        text: without_markers(reply),
        origin: OutboundOrigin::Backend,
        labels: ReplyLabels {
            record: "record backend reply",
            deliver: "deliver backend reply",
            completion: "completed",
        },
        closing: Closing::Success,
        session,
        paths: attached_paths(reply),
    }
}

/// What the sender is told where the run took too long.
pub open spec fn timeout_answer() -> Answer<Seq<char>, Seq<Seq<char>>> {
    gateway_answer(
        "That took too long and was stopped. Try again or simplify the request."@,
        ReplyLabels {
            record: "record timeout reply",
            deliver: "deliver timeout reply",
            completion: "timeout",
        },
        Closing::Failure,
    )
}

/// What the sender is told where the run was stopped.
pub open spec fn interrupted_answer() -> Answer<Seq<char>, Seq<Seq<char>>> {
    gateway_answer(
        "Stopped the current request."@,
        ReplyLabels {
            record: "record interrupted reply",
            deliver: "deliver interrupted reply",
            completion: "interrupted",
        },
        Closing::Failure,
    )
}

/// What the sender is told where the run failed.
pub open spec fn failure_answer(error: Seq<char>) -> Answer<Seq<char>, Seq<Seq<char>>> {
    gateway_answer(
        "⚠️ "@ + short_reason(error),
        ReplyLabels {
            record: "record failure reply",
            deliver: "deliver failure reply",
            completion: "backend_failed",
        },
        Closing::Failure,
    )
}

/// An order without an audit entry.
pub open spec fn order(task: Task<Seq<char>, Seq<Seq<char>>>) -> Order<Seq<char>, Seq<Seq<char>>> {
    Order { audit: None, task }
}

/// An audit entry about a failure.
pub open spec fn failed(event: &'static str, detail: Seq<char>) -> Option<AuditEntry<Seq<char>>> {
    Some(AuditEntry::Failed { event, detail })
}

impl Turn<Seq<char>, Seq<Seq<char>>> {
    /// The turn at a stage, and a task.
    pub open spec fn at(self, stage: TurnStage, task: Task<Seq<char>, Seq<Seq<char>>>) -> (
        Turn<Seq<char>, Seq<Seq<char>>>,
        Order<Seq<char>, Seq<Seq<char>>>,
    ) {
        (Turn { stage, ..self }, order(task))
    }

    /// The turn where the history failed: it ends, with its row open.
    pub open spec fn history_failed(self, action: &'static str, error: Seq<char>) -> (
        Turn<Seq<char>, Seq<Seq<char>>>,
        Order<Seq<char>, Seq<Seq<char>>>,
    ) {
        (
            Turn { stage: TurnStage::Ended, ..self },
            Order {
                audit: failed("message_history_failed", failure_detail(action@, error)),
                task: Task::Stop,
            },
        )
    }

    /// The turn about to record its reply.
    pub open spec fn record(
        self,
        audit: Option<AuditEntry<Seq<char>>>,
        answer: Answer<Seq<char>, Seq<Seq<char>>>,
    ) -> (Turn<Seq<char>, Seq<Seq<char>>>, Order<Seq<char>, Seq<Seq<char>>>) {
        (
            Turn { answer, stage: TurnStage::Recording, ..self },
            Order { audit, task: Task::Record { origin: answer.origin, text: answer.text } },
        )
    }

    /// The turn about to complete its row.
    pub open spec fn complete(self) -> (
        Turn<Seq<char>, Seq<Seq<char>>>,
        Order<Seq<char>, Seq<Seq<char>>>,
    ) {
        self.at(
            TurnStage::Completing,
            Task::Complete {
                reply: Some(self.answer.text),
                reason: self.answer.labels.completion,
            },
        )
    }

    /// What is done with a message, given the command that it holds.
    pub open spec fn dispatched(self, command: Option<Command<Seq<char>>>) -> (
        Turn<Seq<char>, Seq<Seq<char>>>,
        Order<Seq<char>, Seq<Seq<char>>>,
    ) {
        match command {
            Some(command) => self.at(TurnStage::AnsweringCommand, Task::RunCommand(command)),
            None => match job_command_of(self.text) {
                Some(command) => self.at(
                    TurnStage::AnsweringJobCommand,
                    Task::RunJobCommand(command),
                ),
                None => self.at(TurnStage::FindingRunner, Task::FindRunner),
            },
        }
    }

    /// Whether the turn waits for a report of this kind.
    pub open spec fn awaits(self, event: TurnEvent<Seq<char>>) -> bool {
        match event {
            TurnEvent::OutboundMissing | TurnEvent::OutboundStored(_)
            | TurnEvent::OutboundFailed(_) => self.stage is ReadingOutbound,
            TurnEvent::VoicePrepared(_) => self.stage is PreparingVoice,
            TurnEvent::CommandAnswered(_) => self.stage is AnsweringCommand || self.stage
                is AnsweringJobCommand,
            TurnEvent::RunnerFound(_) | TurnEvent::RunnerMissing => self.stage is FindingRunner,
            TurnEvent::SessionFound { .. } => self.stage is FindingSession,
            TurnEvent::WorkDirFound(_) => self.stage is ResolvingWorkDir,
            TurnEvent::FilesPrepared(_) => self.stage is PreparingFiles,
            TurnEvent::IdentityLoaded(_) => self.stage is LoadingIdentity,
            TurnEvent::ContextReady => self.stage is CheckingContext,
            TurnEvent::SetupFailed(_) => self.stage is FindingSession || self.stage
                is ResolvingWorkDir || self.stage is LoadingIdentity || self.stage
                is CheckingContext,
            TurnEvent::BackendRan(_) | TurnEvent::Interrupted => self.stage is RunningBackend,
            TurnEvent::Recorded | TurnEvent::RecordFailed(_) => self.stage is Recording,
            TurnEvent::SessionSaved | TurnEvent::SessionSaveFailed(_) => self.stage
                is SavingSession,
            TurnEvent::Delivered | TurnEvent::DeliveryFailed(_) => self.stage is Delivering,
            TurnEvent::FilesSent => self.stage is SendingFiles,
            TurnEvent::ActivityFinished => self.stage is FinishingActivity || self.stage
                is ClosingActivity,
            TurnEvent::RowCompleted => self.stage is Completing,
        }
    }

    /// What comes after a run of the backend.
    pub open spec fn after_run(self, result: RunResult<Seq<char>>) -> (
        Turn<Seq<char>, Seq<Seq<char>>>,
        Order<Seq<char>, Seq<Seq<char>>>,
    ) {
        match result {
            RunResult::Replied { reply, session } => self.record(
                Some(AuditEntry::BackendCompleted(reply)),
                backend_answer(reply, session),
            ),
            RunResult::TimedOut => self.record(
                failed("backend_run_failed", self.label + " run timed out"@),
                timeout_answer(),
            ),
            RunResult::Failed(error) | RunResult::SessionMissing(error) => self.record(
                failed("backend_run_failed", error),
                failure_answer(error),
            ),
        }
    }

    /// What comes after the reply has reached the channel.
    pub open spec fn after_delivery(self) -> (
        Turn<Seq<char>, Seq<Seq<char>>>,
        Order<Seq<char>, Seq<Seq<char>>>,
    ) {
        if self.answer.closing !is Success {
            self.complete()
        } else if self.answer.paths.len() > 0 {
            self.at(TurnStage::SendingFiles, Task::SendFiles(self.answer.paths))
        } else {
            self.at(TurnStage::FinishingActivity, Task::FinishActivity(true))
        }
    }

    /// The turn after a report before the backend runs, and what to do next.
    pub open spec fn next_before_run(self, event: TurnEvent<Seq<char>>) -> (
        Turn<Seq<char>, Seq<Seq<char>>>,
        Order<Seq<char>, Seq<Seq<char>>>,
    ) {
        match event {
            TurnEvent::OutboundFailed(error) => self.history_failed("read outbound", error),
            TurnEvent::OutboundStored(content) => (Turn {
                answer: gateway_answer(
                    content,
                    labels_of("recover outbound", "recovered_outbound"),
                    Closing::Silent,
                ),
                ..self
            }).at(TurnStage::Delivering, Task::Deliver),
            TurnEvent::OutboundMissing => if self.has_voice {
                self.at(TurnStage::PreparingVoice, Task::PrepareVoice)
            } else {
                self.dispatched(command_of(self.text))
            },
            TurnEvent::VoicePrepared(VoiceResult::Transcript(text)) => (Turn {
                text,
                ..self
            }).dispatched(command_of(text)),
            TurnEvent::VoicePrepared(VoiceResult::HistoryFailed(error)) => self.history_failed(
                "store voice transcript",
                error,
            ),
            TurnEvent::VoicePrepared(VoiceResult::Refused { event, reply, detail }) => self.record(
                failed(event, detail),
                gateway_answer(
                    reply@,
                    labels_of("deliver voice fallback", event),
                    Closing::Silent,
                ),
            ),
            TurnEvent::CommandAnswered(reply) => self.record(
                None,
                gateway_answer(
                    reply,
                    if self.stage is AnsweringCommand {
                        labels_of("record command reply", "command")
                    } else {
                        labels_of("record job command reply", "job_command")
                    },
                    Closing::Silent,
                ),
            ),
            TurnEvent::RunnerMissing => (
                Turn {
                    stage: TurnStage::Completing,
                    ..self
                },
                Order {
                    audit: failed("backend_run_failed", "no runner configured"@),
                    task: Task::Complete { reply: None, reason: "missing_runner" },
                },
            ),
            TurnEvent::RunnerFound(label) => (Turn { label, ..self }).at(
                TurnStage::FindingSession,
                Task::FindSession,
            ),
            TurnEvent::SessionFound { session, is_new } => (Turn { session, is_new, ..self }).at(
                TurnStage::ResolvingWorkDir,
                Task::ResolveWorkDir,
            ),
            TurnEvent::WorkDirFound(work_dir) => {
                let found = Turn { work_dir, ..self };
                if self.has_files {
                    found.at(TurnStage::PreparingFiles, Task::PrepareFiles)
                } else {
                    found.at(TurnStage::LoadingIdentity, Task::LoadIdentity)
                }
            },
            TurnEvent::FilesPrepared(note) => (Turn {
                text: text_with_note(self.text, note),
                ..self
            }).at(TurnStage::LoadingIdentity, Task::LoadIdentity),
            TurnEvent::IdentityLoaded(instructions) => (Turn { instructions, ..self }).at(
                TurnStage::CheckingContext,
                Task::CheckContext,
            ),
            TurnEvent::SetupFailed(error) => self.record(
                failed("backend_setup_failed", error),
                gateway_answer(
                    SESSION_SETUP_FAILURE@,
                    labels_of("record setup failure reply", "setup_failed"),
                    Closing::Silent,
                ),
            ),
            _ => self.at(
                TurnStage::RunningBackend,
                Task::RunBackend {
                    text: self.text,
                    session: self.session,
                    is_new: self.is_new,
                    work_dir: self.work_dir,
                    instructions: self.instructions,
                },
            ),
        }
    }

    /// The turn after a report from the run of the backend on, and what to do next.
    pub open spec fn next_after_run(self, event: TurnEvent<Seq<char>>) -> (
        Turn<Seq<char>, Seq<Seq<char>>>,
        Order<Seq<char>, Seq<Seq<char>>>,
    ) {
        match event {
            TurnEvent::BackendRan(result) => self.after_run(result),
            TurnEvent::Interrupted => self.record(
                failed("backend_run_interrupted", self.label + " run interrupted by user"@),
                interrupted_answer(),
            ),
            TurnEvent::Recorded => if self.answer.closing is Success {
                self.at(TurnStage::SavingSession, Task::SaveSession(self.answer.session))
            } else {
                self.at(TurnStage::Delivering, Task::Deliver)
            },
            TurnEvent::RecordFailed(error) => self.history_failed(self.answer.labels.record, error),
            TurnEvent::SessionSaved => self.at(TurnStage::Delivering, Task::Deliver),
            TurnEvent::SessionSaveFailed(error) => (
                Turn { stage: TurnStage::Ended, ..self },
                Order { audit: failed("backend_session_save_failed", error), task: Task::Stop },
            ),
            TurnEvent::Delivered => self.after_delivery(),
            TurnEvent::DeliveryFailed(error) => if self.answer.closing is Failure {
                (
                    Turn { stage: TurnStage::ClosingActivity, ..self },
                    Order {
                        audit: failed(
                            "message_history_failed",
                            failure_detail(self.answer.labels.deliver@, error),
                        ),
                        task: Task::FinishActivity(false),
                    },
                )
            } else {
                self.history_failed(self.answer.labels.deliver, error)
            },
            TurnEvent::FilesSent => self.at(
                TurnStage::FinishingActivity,
                Task::FinishActivity(true),
            ),
            TurnEvent::ActivityFinished => if self.stage is FinishingActivity {
                self.complete()
            } else {
                self.at(TurnStage::Ended, Task::Stop)
            },
            _ => if self.answer.closing is Failure {
                self.at(TurnStage::ClosingActivity, Task::FinishActivity(false))
            } else {
                self.at(TurnStage::Ended, Task::Stop)
            },
        }
    }

    /// Whether the backend has not run yet.
    pub open spec fn is_before_run(self) -> bool {
        match self.stage {
            TurnStage::ReadingOutbound | TurnStage::PreparingVoice | TurnStage::AnsweringCommand
            | TurnStage::AnsweringJobCommand | TurnStage::FindingRunner
            | TurnStage::FindingSession | TurnStage::ResolvingWorkDir | TurnStage::PreparingFiles
            | TurnStage::LoadingIdentity | TurnStage::CheckingContext => true,
            _ => false,
        }
    }

    /// The turn after a report, and what to do next.
    pub open spec fn next(self, event: TurnEvent<Seq<char>>) -> (
        Turn<Seq<char>, Seq<Seq<char>>>,
        Order<Seq<char>, Seq<Seq<char>>>,
    ) {
        if self.is_before_run() {
            self.next_before_run(event)
        } else {
            self.next_after_run(event)
        }
    }

    /// The turn of a message that has not begun.
    pub open spec fn fresh(text: Seq<char>, has_voice: bool, has_files: bool) -> Turn<
        Seq<char>,
        Seq<Seq<char>>,
    > {
        Turn {
            text,
            has_voice,
            has_files,
            label: Seq::empty(),
            session: Seq::empty(),
            is_new: false,
            work_dir: Seq::empty(),
            instructions: Seq::empty(),
            answer: gateway_answer(Seq::empty(), labels_of("", ""), Closing::Silent),
            stage: TurnStage::ReadingOutbound,
        }
    }
}

/// Copies a list of texts.
fn copy_texts(list: &Vec<String>) -> (copy: Vec<String>)
    ensures
        texts(copy@) == texts(list@),
{
    let mut copy: Vec<String> = Vec::new();
    let mut i: usize = 0;
    while i < list.len()
        invariant
            i <= list@.len(),
            texts(copy@) == texts(list@).take(i as int),
        decreases list@.len() - i,
    {
        let ghost before = texts(copy@);
        copy.push(list[i].clone());
        assert(texts(copy@) =~= before.push(list@[i as int]@));
        assert(texts(list@).take(i + 1) =~= before.push(list@[i as int]@));
        i = i + 1;
    }
    assert(texts(list@).take(i as int) =~= texts(list@));
    copy
}

/// Writes down a reply of the gateway.
fn write_gateway_answer(text: String, labels: ReplyLabels, closing: Closing) -> (answer: Answer<
    String,
    Vec<String>,
>)
    ensures
        answer@ == gateway_answer(text@, labels, closing),
{
    let answer = Answer {
        text,
        origin: OutboundOrigin::Gateway,
        labels,
        closing,
        session: None,
        paths: Vec::new(),
    };
    assert(texts(answer.paths@) =~= Seq::<Seq<char>>::empty());
    answer
}

/// Makes the labels of a reply whose recording and delivery share one.
fn shared_labels(failure: &'static str, completion: &'static str) -> (labels: ReplyLabels)
    ensures
        labels == labels_of(failure, completion),
{
    ReplyLabels { record: failure, deliver: failure, completion }
}

impl Turn<String, Vec<String>> {
    /// Starts the turn of a message, which may have a voice message or files with it.
    pub fn begin(text: String, has_voice: bool, has_files: bool) -> (begun: (
        Turn<String, Vec<String>>,
        Order<String, Vec<String>>,
    ))
        ensures
            begun.0@ == Turn::<Seq<char>, Seq<Seq<char>>>::fresh(text@, has_voice, has_files),
            begun.1@ == order(Task::ReadOutbound),
    {
        let none = String::new();
        assert(none@ =~= Seq::<char>::empty());
        let answer = write_gateway_answer(none.clone(), shared_labels("", ""), Closing::Silent);
        let turn = Turn {
            text,
            has_voice,
            has_files,
            label: none.clone(),
            session: none.clone(),
            is_new: false,
            work_dir: none.clone(),
            instructions: none,
            answer,
            stage: TurnStage::ReadingOutbound,
        };
        (turn, Order { audit: None, task: Task::ReadOutbound })
    }

    fn move_to(&mut self, stage: TurnStage, task: Task<String, Vec<String>>) -> (next: Order<
        String,
        Vec<String>,
    >)
        ensures
            (final(self)@, next@) == old(self)@.at(stage, task@),
    {
        self.stage = stage;
        Order { audit: None, task }
    }

    fn fail_history(&mut self, action: &'static str, error: &str) -> (next: Order<
        String,
        Vec<String>,
    >)
        ensures
            (final(self)@, next@) == old(self)@.history_failed(action, error@),
    {
        self.stage = TurnStage::Ended;
        let detail = history_failure_detail(action, error);
        Order {
            audit: Some(AuditEntry::Failed { event: "message_history_failed", detail }),
            task: Task::Stop,
        }
    }

    fn start_recording(
        &mut self,
        audit: Option<AuditEntry<String>>,
        answer: Answer<String, Vec<String>>,
    ) -> (next: Order<String, Vec<String>>)
        ensures
            (final(self)@, next@) == old(self)@.record(audit_view(audit), answer@),
    {
        let task = Task::Record { origin: answer.origin, text: answer.text.clone() };
        self.answer = answer;
        self.stage = TurnStage::Recording;
        Order { audit, task }
    }

    fn start_completing(&mut self) -> (next: Order<String, Vec<String>>)
        ensures
            (final(self)@, next@) == old(self)@.complete(),
    {
        let reply = Some(self.answer.text.clone());
        let reason = self.answer.labels.completion;
        self.move_to(TurnStage::Completing, Task::Complete { reply, reason })
    }

    /// Decides what is done with the message, given the command that it holds.
    pub fn dispatch_given(&mut self, command: Option<Command<String>>) -> (next: Order<
        String,
        Vec<String>,
    >)
        ensures
            (final(self)@, next@) == old(self)@.dispatched(command_view(command)),
    {
        match command {
            Some(command) => self.move_to(TurnStage::AnsweringCommand, Task::RunCommand(command)),
            None => match job_command(self.text.as_str()) {
                Some(command) => self.move_to(
                    TurnStage::AnsweringJobCommand,
                    Task::RunJobCommand(command),
                ),
                None => self.move_to(TurnStage::FindingRunner, Task::FindRunner),
            },
        }
    }

    fn dispatch(&mut self) -> (next: Order<String, Vec<String>>)
        ensures
            (final(self)@, next@) == old(self)@.dispatched(command_of(old(self)@.text)),
    {
        let found = command(self.text.as_str());
        self.dispatch_given(found)
    }

    /// Whether the turn waits for a report of this kind.
    pub fn is_awaiting(&self, event: &TurnEvent<String>) -> (yes: bool)
        ensures
            yes == self@.awaits(event@),
    {
        match event {
            TurnEvent::OutboundMissing | TurnEvent::OutboundStored(_)
            | TurnEvent::OutboundFailed(_) => matches!(self.stage, TurnStage::ReadingOutbound),
            TurnEvent::VoicePrepared(_) => matches!(self.stage, TurnStage::PreparingVoice),
            TurnEvent::CommandAnswered(_) => matches!(
                self.stage,
                TurnStage::AnsweringCommand | TurnStage::AnsweringJobCommand
            ),
            TurnEvent::RunnerFound(_) | TurnEvent::RunnerMissing => matches!(
                self.stage,
                TurnStage::FindingRunner
            ),
            TurnEvent::SessionFound { .. } => matches!(self.stage, TurnStage::FindingSession),
            TurnEvent::WorkDirFound(_) => matches!(self.stage, TurnStage::ResolvingWorkDir),
            TurnEvent::FilesPrepared(_) => matches!(self.stage, TurnStage::PreparingFiles),
            TurnEvent::IdentityLoaded(_) => matches!(self.stage, TurnStage::LoadingIdentity),
            TurnEvent::ContextReady => matches!(self.stage, TurnStage::CheckingContext),
            TurnEvent::SetupFailed(_) => matches!(
                self.stage,
                TurnStage::FindingSession | TurnStage::ResolvingWorkDir | TurnStage::LoadingIdentity
                | TurnStage::CheckingContext
            ),
            TurnEvent::BackendRan(_) | TurnEvent::Interrupted => matches!(
                self.stage,
                TurnStage::RunningBackend
            ),
            TurnEvent::Recorded | TurnEvent::RecordFailed(_) => matches!(
                self.stage,
                TurnStage::Recording
            ),
            TurnEvent::SessionSaved | TurnEvent::SessionSaveFailed(_) => matches!(
                self.stage,
                TurnStage::SavingSession
            ),
            TurnEvent::Delivered | TurnEvent::DeliveryFailed(_) => matches!(
                self.stage,
                TurnStage::Delivering
            ),
            TurnEvent::FilesSent => matches!(self.stage, TurnStage::SendingFiles),
            TurnEvent::ActivityFinished => matches!(
                self.stage,
                TurnStage::FinishingActivity | TurnStage::ClosingActivity
            ),
            TurnEvent::RowCompleted => matches!(self.stage, TurnStage::Completing),
        }
    }

    fn take_run_result(&mut self, result: RunResult<String>) -> (next: Order<String, Vec<String>>)
        ensures
            (final(self)@, next@) == old(self)@.after_run(result@),
    {
        match result {
            RunResult::Replied { reply, session } => {
                let answer = Answer {
                    text: strip_attach_markers(reply.as_str()),
                    origin: OutboundOrigin::Backend,
                    labels: ReplyLabels {
                        record: "record backend reply",
                        deliver: "deliver backend reply",
                        completion: "completed",
                    },
                    closing: Closing::Success,
                    session,
                    paths: parse_attach_markers(reply.as_str()),
                };
                self.start_recording(Some(AuditEntry::BackendCompleted(reply)), answer)
            },
            RunResult::TimedOut => {
                let mut detail = self.label.clone();
                detail.append(" run timed out");
                let answer = write_gateway_answer(
                    "That took too long and was stopped. Try again or simplify the request.".to_owned(),
                    ReplyLabels {
                        record: "record timeout reply",
                        deliver: "deliver timeout reply",
                        completion: "timeout",
                    },
                    Closing::Failure,
                );
                self.start_recording(
                    Some(AuditEntry::Failed { event: "backend_run_failed", detail }),
                    answer,
                )
            },
            RunResult::Failed(error) | RunResult::SessionMissing(error) => {
                let mut text = "⚠️ ".to_owned();
                text.append(short(error.as_str()).as_str());
                let answer = write_gateway_answer(
                    text,
                    ReplyLabels {
                        record: "record failure reply",
                        deliver: "deliver failure reply",
                        completion: "backend_failed",
                    },
                    Closing::Failure,
                );
                self.start_recording(
                    Some(AuditEntry::Failed { event: "backend_run_failed", detail: error }),
                    answer,
                )
            },
        }
    }

    fn take_delivery(&mut self) -> (next: Order<String, Vec<String>>)
        ensures
            (final(self)@, next@) == old(self)@.after_delivery(),
    {
        if !matches!(self.answer.closing, Closing::Success) {
            self.start_completing()
        } else if self.answer.paths.len() > 0 {
            let paths = copy_texts(&self.answer.paths);
            self.move_to(TurnStage::SendingFiles, Task::SendFiles(paths))
        } else {
            self.move_to(TurnStage::FinishingActivity, Task::FinishActivity(true))
        }
    }

    fn step_before_run(&mut self, event: TurnEvent<String>) -> (next: Order<String, Vec<String>>)
        requires
            old(self)@.awaits(event@),
            old(self)@.is_before_run(),
        ensures
            (final(self)@, next@) == old(self)@.next_before_run(event@),
    {
        match event {
            TurnEvent::OutboundFailed(error) => self.fail_history("read outbound", error.as_str()),
            TurnEvent::OutboundStored(content) => {
                self.answer = write_gateway_answer(
                    content,
                    shared_labels("recover outbound", "recovered_outbound"),
                    Closing::Silent,
                );
                self.move_to(TurnStage::Delivering, Task::Deliver)
            },
            TurnEvent::OutboundMissing => {
                if self.has_voice {
                    self.move_to(TurnStage::PreparingVoice, Task::PrepareVoice)
                } else {
                    self.dispatch()
                }
            },
            TurnEvent::VoicePrepared(VoiceResult::Transcript(text)) => {
                self.text = text;
                self.dispatch()
            },
            TurnEvent::VoicePrepared(VoiceResult::HistoryFailed(error)) => self.fail_history(
                "store voice transcript",
                error.as_str(),
            ),
            TurnEvent::VoicePrepared(VoiceResult::Refused { event, reply, detail }) => {
                let answer = write_gateway_answer(
                    reply.to_owned(),
                    shared_labels("deliver voice fallback", event),
                    Closing::Silent,
                );
                self.start_recording(Some(AuditEntry::Failed { event, detail }), answer)
            },
            TurnEvent::CommandAnswered(reply) => {
                let labels = if matches!(self.stage, TurnStage::AnsweringCommand) {
                    shared_labels("record command reply", "command")
                } else {
                    shared_labels("record job command reply", "job_command")
                };
                self.start_recording(None, write_gateway_answer(reply, labels, Closing::Silent))
            },
            TurnEvent::RunnerMissing => {
                self.stage = TurnStage::Completing;
                Order {
                    audit: Some(
                        AuditEntry::Failed {
                            event: "backend_run_failed",
                            detail: "no runner configured".to_owned(),
                        },
                    ),
                    task: Task::Complete { reply: None, reason: "missing_runner" },
                }
            },
            TurnEvent::RunnerFound(label) => {
                self.label = label;
                self.move_to(TurnStage::FindingSession, Task::FindSession)
            },
            TurnEvent::SessionFound { session, is_new } => {
                self.session = session;
                self.is_new = is_new;
                self.move_to(TurnStage::ResolvingWorkDir, Task::ResolveWorkDir)
            },
            TurnEvent::WorkDirFound(work_dir) => {
                self.work_dir = work_dir;
                if self.has_files {
                    self.move_to(TurnStage::PreparingFiles, Task::PrepareFiles)
                } else {
                    self.move_to(TurnStage::LoadingIdentity, Task::LoadIdentity)
                }
            },
            TurnEvent::FilesPrepared(note) => {
                let text = append_note(self.text.as_str(), note.as_str());
                self.text = text;
                self.move_to(TurnStage::LoadingIdentity, Task::LoadIdentity)
            },
            TurnEvent::IdentityLoaded(instructions) => {
                self.instructions = instructions;
                self.move_to(TurnStage::CheckingContext, Task::CheckContext)
            },
            TurnEvent::SetupFailed(error) => {
                let answer = write_gateway_answer(
                    SESSION_SETUP_FAILURE.to_owned(),
                    shared_labels("record setup failure reply", "setup_failed"),
                    Closing::Silent,
                );
                self.start_recording(
                    Some(AuditEntry::Failed { event: "backend_setup_failed", detail: error }),
                    answer,
                )
            },
            _ => {
                let task = Task::RunBackend {
                    text: self.text.clone(),
                    session: self.session.clone(),
                    is_new: self.is_new,
                    work_dir: self.work_dir.clone(),
                    instructions: self.instructions.clone(),
                };
                self.move_to(TurnStage::RunningBackend, task)
            },
        }
    }

    fn step_after_run(&mut self, event: TurnEvent<String>) -> (next: Order<String, Vec<String>>)
        requires
            old(self)@.awaits(event@),
            !old(self)@.is_before_run(),
        ensures
            (final(self)@, next@) == old(self)@.next_after_run(event@),
    {
        match event {
            TurnEvent::BackendRan(result) => self.take_run_result(result),
            TurnEvent::Interrupted => {
                let mut detail = self.label.clone();
                detail.append(" run interrupted by user");
                let answer = write_gateway_answer(
                    "Stopped the current request.".to_owned(),
                    ReplyLabels {
                        record: "record interrupted reply",
                        deliver: "deliver interrupted reply",
                        completion: "interrupted",
                    },
                    Closing::Failure,
                );
                self.start_recording(
                    Some(AuditEntry::Failed { event: "backend_run_interrupted", detail }),
                    answer,
                )
            },
            TurnEvent::Recorded => {
                if matches!(self.answer.closing, Closing::Success) {
                    let session = self.answer.session.clone();
                    self.move_to(TurnStage::SavingSession, Task::SaveSession(session))
                } else {
                    self.move_to(TurnStage::Delivering, Task::Deliver)
                }
            },
            TurnEvent::RecordFailed(error) => self.fail_history(
                self.answer.labels.record,
                error.as_str(),
            ),
            TurnEvent::SessionSaved => self.move_to(TurnStage::Delivering, Task::Deliver),
            TurnEvent::SessionSaveFailed(error) => {
                self.stage = TurnStage::Ended;
                Order {
                    audit: Some(
                        AuditEntry::Failed { event: "backend_session_save_failed", detail: error },
                    ),
                    task: Task::Stop,
                }
            },
            TurnEvent::Delivered => self.take_delivery(),
            TurnEvent::DeliveryFailed(error) => {
                if matches!(self.answer.closing, Closing::Failure) {
                    let detail = history_failure_detail(
                        self.answer.labels.deliver,
                        error.as_str(),
                    );
                    self.stage = TurnStage::ClosingActivity;
                    Order {
                        audit: Some(
                            AuditEntry::Failed { event: "message_history_failed", detail },
                        ),
                        task: Task::FinishActivity(false),
                    }
                } else {
                    self.fail_history(self.answer.labels.deliver, error.as_str())
                }
            },
            TurnEvent::FilesSent => self.move_to(
                TurnStage::FinishingActivity,
                Task::FinishActivity(true),
            ),
            TurnEvent::ActivityFinished => {
                if matches!(self.stage, TurnStage::FinishingActivity) {
                    self.start_completing()
                } else {
                    self.move_to(TurnStage::Ended, Task::Stop)
                }
            },
            _ => {
                if matches!(self.answer.closing, Closing::Failure) {
                    self.move_to(TurnStage::ClosingActivity, Task::FinishActivity(false))
                } else {
                    self.move_to(TurnStage::Ended, Task::Stop)
                }
            },
        }
    }

    /// Takes a report and decides what is done next.
    pub fn step(&mut self, event: TurnEvent<String>) -> (next: Order<String, Vec<String>>)
        requires
            old(self)@.awaits(event@),
        ensures
            (final(self)@, next@) == old(self)@.next(event@),
    {
        let before_run = matches!(
            self.stage,
            TurnStage::ReadingOutbound | TurnStage::PreparingVoice | TurnStage::AnsweringCommand
            | TurnStage::AnsweringJobCommand | TurnStage::FindingRunner | TurnStage::FindingSession
            | TurnStage::ResolvingWorkDir | TurnStage::PreparingFiles | TurnStage::LoadingIdentity
            | TurnStage::CheckingContext
        );
        if before_run {
            self.step_before_run(event)
        } else {
            self.step_after_run(event)
        }
    }
}

} // verus!
