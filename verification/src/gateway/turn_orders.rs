//! What a turn orders, told by what was reported to it and by nothing else.

use crate::gateway::attachments::{attached_paths, without_markers};
use crate::gateway::commands::{command_of, job_command_of};
use crate::gateway::run::RunResult;
use crate::gateway::delivery::{DeliveryEnd, DeliveryOutcome};
use crate::gateway::turn::{
    failure_detail, report_of, short_reason, AuditEntry, Order, OutboundOrigin, Task, Turn, TurnEvent, TurnStage,
    SESSION_SETUP_FAILURE,
};
use crate::gateway::turn_laws::{is_series, told, turn_after};
use crate::gateway::voice::VoiceResult;
use crate::text::{contains, last_match, last_match_is_last, occurs_at, trimmed};
use vstd::prelude::*;

verus! {

/// How the message of a turn fared.
pub enum Outcome {
    /// The backend replied; it named this session and attached these files.
    Replied { session: Option<Seq<char>>, paths: Seq<Seq<char>> },
    /// The run failed, took too long or was stopped.
    Failed,
    /// The backend did not run.
    NotRun,
}

/// A reply that a report brought.
pub struct Brought {
    pub text: Seq<char>,
    pub origin: OutboundOrigin,
    pub outcome: Outcome,
    /// What failed where it could not be recorded, or delivered.
    pub record: &'static str,
    pub deliver: &'static str,
    /// Why the row is complete once it is delivered.
    pub reason: &'static str,
}

/// A reply of the gateway whose recording and delivery share a label.
pub open spec fn from_gateway(
    text: Seq<char>,
    label: &'static str,
    reason: &'static str,
) -> Option<Brought> {
    Some(
        Brought {
            text,
            origin: OutboundOrigin::Gateway,
            outcome: Outcome::NotRun,
            record: label,
            deliver: label,
            reason,
        },
    )
}

/// The reply that a report brings, given what the driver was told before it.
pub open spec fn brings(
    task: Task<Seq<char>, Seq<Seq<char>>>,
    event: TurnEvent<Seq<char>>,
) -> Option<Brought> {
    match event {
        TurnEvent::OutboundStored(content) => from_gateway(
            content,
            "recover outbound",
            "recovered_outbound",
        ),
        TurnEvent::VoicePrepared(VoiceResult::Refused { event, reply, .. }) => from_gateway(
            reply@,
            "deliver voice fallback",
            event,
        ),
        TurnEvent::CommandAnswered(reply) => if task is RunCommand {
            from_gateway(reply, "record command reply", "command")
        } else {
            from_gateway(reply, "record job command reply", "job_command")
        },
        TurnEvent::SetupFailed(_) => from_gateway(
            SESSION_SETUP_FAILURE@,
            "record setup failure reply",
            "setup_failed",
        ),
        TurnEvent::BackendRan(RunResult::Replied { reply, session }) => Some(
            Brought {
                text: without_markers(reply),
                origin: OutboundOrigin::Backend,
                outcome: Outcome::Replied { session, paths: attached_paths(reply) },
                record: "record backend reply",
                deliver: "deliver backend reply",
                reason: "completed",
            },
        ),
        TurnEvent::BackendRan(RunResult::TimedOut) => Some(
            Brought {
                text: "That took too long and was stopped. Try again or simplify the request."@,
                origin: OutboundOrigin::Gateway,
                outcome: Outcome::Failed,
                record: "record timeout reply",
                deliver: "deliver timeout reply",
                reason: "timeout",
            },
        ),
        TurnEvent::BackendRan(RunResult::Failed(error)) | TurnEvent::BackendRan(
            RunResult::SessionMissing(error),
        ) => Some(
            Brought {
                text: "⚠️ "@ + short_reason(error),
                origin: OutboundOrigin::Gateway,
                outcome: Outcome::Failed,
                record: "record failure reply",
                deliver: "deliver failure reply",
                reason: "backend_failed",
            },
        ),
        TurnEvent::Interrupted => Some(
            Brought {
                text: "Stopped the current request."@,
                origin: OutboundOrigin::Gateway,
                outcome: Outcome::Failed,
                record: "record interrupted reply",
                deliver: "deliver interrupted reply",
                reason: "interrupted",
            },
        ),
        _ => None,
    }
}

/// The reply that a series of reports brought last.
pub open spec fn brought(
    start: Turn<Seq<char>, Seq<Seq<char>>>,
    events: Seq<TurnEvent<Seq<char>>>,
) -> Option<Brought>
    decreases events.len(),
{
    if events.len() == 0 {
        None
    } else {
        match brings(told(start, events, events.len() - 1), events.last()) {
            Some(reply) => Some(reply),
            None => brought(start, events.drop_last()),
        }
    }
}

/// What the driver was told after a series of reports, with what is audited.
pub open spec fn ordered(
    start: Turn<Seq<char>, Seq<Seq<char>>>,
    events: Seq<TurnEvent<Seq<char>>>,
) -> Order<Seq<char>, Seq<Seq<char>>> {
    turn_after(start, events.drop_last()).next(events.last()).1
}

/// Whether the backend of the turn has this label.
pub open spec fn has_label(events: Seq<TurnEvent<Seq<char>>>, label: Seq<char>) -> bool {
    exists|i: int| 0 <= i < events.len() && #[trigger] events[i] == TurnEvent::RunnerFound(label)
}

/// What is known of a turn from the reports that it got.
proof fn reports_tell_turn(
    start: Turn<Seq<char>, Seq<Seq<char>>>,
    events: Seq<TurnEvent<Seq<char>>>,
)
    requires
        is_series(start, events),
    ensures
        ({
            let turn = turn_after(start, events);
            &&& turn.has_voice == start.has_voice && turn.has_files == start.has_files
            &&& turn.stage is ReadingOutbound ==> events.len() == 0 && turn == start
            &&& turn.stage is AnsweringCommand <==> told(start, events, events.len() as int)
                is RunCommand
            &&& turn.is_before_run() || turn.stage is RunningBackend ==> brought(start, events)
                is None
            &&& match brought(start, events) {
                Some(reply) => {
                    &&& turn.answer.text == reply.text
                    &&& turn.answer.labels.record == reply.record
                    &&& turn.answer.labels.deliver == reply.deliver
                    &&& turn.answer.labels.completion == reply.reason
                    &&& turn.answer.closing is Success <==> reply.outcome is Replied
                    &&& turn.answer.closing is Failure <==> reply.outcome is Failed
                    &&& reply.outcome matches Outcome::Replied { session, paths }
                        ==> turn.answer.session == session && turn.answer.paths == paths
                },
                None => turn.answer.closing is Silent && !(turn.stage is Recording) && !(turn.stage
                    is SavingSession) && !(turn.stage is Delivering) && !(turn.stage
                    is SendingFiles) && !(turn.stage is FinishingActivity) && !(turn.stage
                    is ClosingActivity),
            }
            &&& turn.stage is SavingSession || turn.stage is SendingFiles || turn.stage
                is FinishingActivity ==> turn.answer.closing is Success
            &&& turn.stage is ClosingActivity ==> turn.answer.closing is Failure
            &&& turn.stage is FindingSession || turn.stage is ResolvingWorkDir || turn.stage
                is PreparingFiles || turn.stage is LoadingIdentity || turn.stage is CheckingContext
                || turn.stage is RunningBackend ==> has_label(events, turn.label)
        }),
    decreases events.len(),
{
    if events.len() > 0 {
        let front = events.drop_last();
        let before = turn_after(start, front);
        let turn = turn_after(start, events);
        let last = events.len() as int;
        reports_tell_turn(start, front);
        assert(events.take(last - 1) =~= front);
        assert(before.awaits(events.last()));
        assert(told(start, events, last) == before.next(events.last()).1.task);
        same_orders(start, events);
        if has_label(front, before.label) {
            let i = choose|i: int|
                0 <= i < front.len() && #[trigger] front[i] == TurnEvent::RunnerFound(before.label);
            assert(events[i] == TurnEvent::RunnerFound(before.label));
        }
        if events.last() is RunnerFound {
            assert(events[last - 1] == TurnEvent::RunnerFound(turn.label));
        }
    }
}

/// What was told before the last report is what the shorter series was told.
proof fn same_orders(start: Turn<Seq<char>, Seq<Seq<char>>>, events: Seq<TurnEvent<Seq<char>>>)
    requires
        events.len() > 0,
    ensures
        told(start, events, events.len() - 1) == told(
            start,
            events.drop_last(),
            events.len() - 1,
        ),
{
    let n = events.len() - 1;
    if n > 0 {
        assert(events.take(n - 1) =~= events.drop_last().take(n - 1));
    }
}

/// What a message leads to: its command is carried out by the gateway, or by the jobs; a message
/// without one goes to a backend.
pub open spec fn is_sent_on(task: Task<Seq<char>, Seq<Seq<char>>>, message: Seq<char>) -> bool {
    match (command_of(message), job_command_of(message)) {
        (Some(command), _) => task == Task::<Seq<char>, Seq<Seq<char>>>::RunCommand(command),
        (None, Some(command)) => task == Task::<Seq<char>, Seq<Seq<char>>>::RunJobCommand(command),
        (None, None) => task is FindRunner,
    }
}

/// Whether an order goes without an audit entry.
pub open spec fn is_quiet(order: Order<Seq<char>, Seq<Seq<char>>>) -> bool {
    order.audit is None
}

/// Whether an order audits a failure.
pub open spec fn audits(
    order: Order<Seq<char>, Seq<Seq<char>>>,
    event: &'static str,
    detail: Seq<char>,
) -> bool {
    order.audit == Some(AuditEntry::Failed { event, detail })
}

/// What a turn orders before the backend runs. What the history refuses ends the turn. A message
/// whose reply is stored is only delivered. A voice message is transcribed first. A message that
/// holds a command is answered by the gateway. Any other message gets its runner, its session, its
/// work directory, its files, its instructions and its context, in this order, and then runs. Every
/// reply is recorded as what it is.
pub proof fn orders_before_the_run(
    start: Turn<Seq<char>, Seq<Seq<char>>>,
    events: Seq<TurnEvent<Seq<char>>>,
)
    requires
        events.len() > 0,
        is_series(start, events),
    ensures
        ({
            let order = ordered(start, events);
            match events.last() {
                TurnEvent::OutboundFailed(error) => order.task is Stop && audits(
                    order,
                    "message_history_failed",
                    "read outbound"@ + ": "@ + error,
                ),
                TurnEvent::OutboundStored(_) => order.task is Deliver && is_quiet(order),
                TurnEvent::OutboundMissing => is_quiet(order) && if start.has_voice {
                    order.task is PrepareVoice
                } else {
                    is_sent_on(order.task, start.text)
                },
                TurnEvent::VoicePrepared(VoiceResult::Transcript(text)) => is_quiet(order)
                    && is_sent_on(order.task, text),
                TurnEvent::VoicePrepared(VoiceResult::HistoryFailed(error)) => order.task is Stop
                    && audits(
                    order,
                    "message_history_failed",
                    "store voice transcript"@ + ": "@ + error,
                ),
                TurnEvent::VoicePrepared(VoiceResult::Refused { event, reply, detail }) => order.task
                    == (Task::<Seq<char>, Seq<Seq<char>>>::Record {
                    origin: OutboundOrigin::Gateway,
                    text: reply@,
                }) && audits(order, event, detail),
                TurnEvent::CommandAnswered(reply) => order.task == (Task::<
                    Seq<char>,
                    Seq<Seq<char>>,
                >::Record { origin: OutboundOrigin::Gateway, text: reply }) && is_quiet(order),
                TurnEvent::RunnerMissing => order.task == (Task::<
                    Seq<char>,
                    Seq<Seq<char>>,
                >::Complete { reply: None, reason: "missing_runner" }) && audits(
                    order,
                    "backend_run_failed",
                    "no runner configured"@,
                ),
                TurnEvent::RunnerFound(_) => order.task is FindSession && is_quiet(order),
                TurnEvent::SessionFound { .. } => order.task is ResolveWorkDir && is_quiet(order),
                TurnEvent::WorkDirFound(_) => is_quiet(order) && if start.has_files {
                    order.task is PrepareFiles
                } else {
                    order.task is LoadIdentity
                },
                TurnEvent::FilesPrepared(_) => order.task is LoadIdentity && is_quiet(order),
                TurnEvent::IdentityLoaded(_) => order.task is CheckContext && is_quiet(order),
                TurnEvent::ContextReady => order.task is RunBackend && is_quiet(order),
                TurnEvent::SetupFailed(error) => order.task == (Task::<
                    Seq<char>,
                    Seq<Seq<char>>,
                >::Record {
                    origin: OutboundOrigin::Gateway,
                    text: "Push could not prepare this conversation. Check the local logs, then resend."@,
                }) && audits(order, "backend_setup_failed", error),
                _ => true,
            }
        }),
{
    let front = events.drop_last();
    reports_tell_turn(start, front);
    assert(turn_after(start, front).awaits(events.last()));
}

/// What a turn orders from the run of the backend on. What came of the run is recorded and audited.
/// The session of a reply is saved before it is delivered, and its files are sent and the message
/// marked as answered behind it. Any other reply is delivered at once; the message of a run that
/// failed is marked as not answered in the end. The row is completed with the reply that was
/// recorded. What cannot be recorded, saved or delivered is audited, and the row stays open.
pub proof fn orders_from_the_run_on(
    start: Turn<Seq<char>, Seq<Seq<char>>>,
    events: Seq<TurnEvent<Seq<char>>>,
)
    requires
        events.len() > 0,
        is_series(start, events),
    ensures
        ({
            let order = ordered(start, events);
            let reply = brought(start, events);
            match events.last() {
                TurnEvent::BackendRan(RunResult::Replied { reply: said, .. }) => order.audit == Some(
                    AuditEntry::BackendCompleted(said),
                ),
                TurnEvent::BackendRan(RunResult::TimedOut) => exists|label: Seq<char>| #[trigger]
                    has_label(events, label) && audits(
                        order,
                        "backend_run_failed",
                        label + " run timed out"@,
                    ),
                TurnEvent::BackendRan(RunResult::Failed(error)) | TurnEvent::BackendRan(
                    RunResult::SessionMissing(error),
                ) => audits(order, "backend_run_failed", error),
                TurnEvent::Interrupted => exists|label: Seq<char>| #[trigger]
                    has_label(events, label) && audits(
                        order,
                        "backend_run_interrupted",
                        label + " run interrupted by user"@,
                    ),
                TurnEvent::RecordFailed(error) => reply is Some && order.task is Stop && audits(
                    order,
                    "message_history_failed",
                    reply->0.record@ + ": "@ + error,
                ),
                TurnEvent::SessionSaveFailed(error) => order.task is Stop && audits(
                    order,
                    "backend_session_save_failed",
                    error,
                ),
                TurnEvent::DeliveryFailed(error) => reply is Some && audits(
                    order,
                    "message_history_failed",
                    reply->0.deliver@ + ": "@ + error,
                ),
                TurnEvent::Recorded | TurnEvent::SessionSaved | TurnEvent::Delivered
                | TurnEvent::FilesSent | TurnEvent::ActivityFinished
                | TurnEvent::RowCompleted => is_quiet(order),
                _ => true,
            }
        }),
        ({
            let task = ordered(start, events).task;
            let reply = brought(start, events);
            match events.last() {
                TurnEvent::BackendRan(_) | TurnEvent::Interrupted => reply is Some && task == (Task::<
                    Seq<char>,
                    Seq<Seq<char>>,
                >::Record { origin: reply->0.origin, text: reply->0.text }),
                TurnEvent::Recorded => reply is Some && match reply->0.outcome {
                    Outcome::Replied { session, .. } => task == Task::<
                        Seq<char>,
                        Seq<Seq<char>>,
                    >::SaveSession(session),
                    _ => task is Deliver,
                },
                TurnEvent::SessionSaved => task is Deliver,
                TurnEvent::Delivered => reply is Some && match reply->0.outcome {
                    Outcome::Replied { paths, .. } => if paths.len() > 0 {
                        task == Task::<Seq<char>, Seq<Seq<char>>>::SendFiles(paths)
                    } else {
                        task == Task::<Seq<char>, Seq<Seq<char>>>::FinishActivity(true)
                    },
                    _ => task == (Task::<Seq<char>, Seq<Seq<char>>>::Complete {
                        reply: Some(reply->0.text),
                        reason: reply->0.reason,
                    }),
                },
                TurnEvent::FilesSent => task == Task::<
                    Seq<char>,
                    Seq<Seq<char>>,
                >::FinishActivity(true),
                TurnEvent::DeliveryFailed(_) => reply is Some && if reply->0.outcome is Failed {
                    task == Task::<Seq<char>, Seq<Seq<char>>>::FinishActivity(false)
                } else {
                    task is Stop
                },
                TurnEvent::ActivityFinished => reply is Some && if reply->0.outcome is Failed {
                    task is Stop
                } else {
                    task == (Task::<Seq<char>, Seq<Seq<char>>>::Complete {
                        reply: Some(reply->0.text),
                        reason: reply->0.reason,
                    })
                },
                TurnEvent::RowCompleted => if reply is Some && reply->0.outcome is Failed {
                    task == Task::<Seq<char>, Seq<Seq<char>>>::FinishActivity(false)
                } else {
                    task is Stop
                },
                _ => true,
            }
        }),
{
    let front = events.drop_last();
    let before = turn_after(start, front);
    reports_tell_turn(start, front);
    assert(before.awaits(events.last()));
    same_orders(start, events);
    if before.stage is RunningBackend {
        let i = choose|i: int|
            0 <= i < front.len() && #[trigger] front[i] == TurnEvent::RunnerFound(before.label);
        assert(events[i] == TurnEvent::RunnerFound(before.label));
        assert(has_label(events, before.label));
    }
}

/// Where the reports of a turn up to the run of its backend stand, and what they said.
pub open spec fn led_to_run(
    start: Turn<Seq<char>, Seq<Seq<char>>>,
    events: Seq<TurnEvent<Seq<char>>>,
    text: Seq<char>,
    session: Seq<char>,
    is_new: bool,
    work_dir: Seq<char>,
    instructions: Seq<char>,
) -> bool {
    let voice: int = if start.has_voice {
        1
    } else {
        0
    };
    let files: int = if start.has_files {
        1
    } else {
        0
    };
    &&& events.len() == voice + files + 6
    &&& events[0] is OutboundMissing
    &&& start.has_voice ==> (events[1] matches TurnEvent::VoicePrepared(result) && result
        is Transcript)
    &&& events[voice + 1] is RunnerFound
    &&& events[voice + 2] == (TurnEvent::SessionFound { session, is_new })
    &&& events[voice + 3] == TurnEvent::WorkDirFound(work_dir)
    &&& events[voice + files + 4] == TurnEvent::IdentityLoaded(instructions)
    &&& events[voice + files + 5] is ContextReady
    &&& {
        let message = if start.has_voice {
            events[1]->VoicePrepared_0->Transcript_0
        } else {
            start.text
        };
        if start.has_files {
            events[voice + 4] matches TurnEvent::FilesPrepared(note) && {
                &&& note.len() == 0 ==> text == message
                &&& note.len() > 0 && trimmed(message).len() == 0 ==> text == note
                &&& note.len() > 0 && trimmed(message).len() > 0 ==> text == message + "\n\n"@ + note
            }
        } else {
            text == message
        }
    }
}

/// How far a turn has come on its way to the run of its backend, and what it was told by then.
pub open spec fn on_the_way(
    start: Turn<Seq<char>, Seq<Seq<char>>>,
    events: Seq<TurnEvent<Seq<char>>>,
    turn: Turn<Seq<char>, Seq<Seq<char>>>,
    steps: int,
) -> bool {
    let voice: int = if start.has_voice {
        1
    } else {
        0
    };
    let files: int = if start.has_files {
        1
    } else {
        0
    };
    let message = if start.has_voice {
        events[1]->VoicePrepared_0->Transcript_0
    } else {
        start.text
    };
    &&& steps >= 1 ==> events[0] is OutboundMissing && (start.has_voice ==> (events[1] matches
        TurnEvent::VoicePrepared(result) && result is Transcript))
    &&& steps >= 2 ==> events[voice + 1] is RunnerFound
    &&& steps >= 3 ==> events[voice + 2] == (TurnEvent::SessionFound {
        session: turn.session,
        is_new: turn.is_new,
    })
    &&& steps >= 4 ==> events[voice + 3] == TurnEvent::WorkDirFound(turn.work_dir)
    &&& steps >= 5 && start.has_files ==> (events[voice + 4] matches TurnEvent::FilesPrepared(
        note,
    ) && {
        &&& note.len() == 0 ==> turn.text == message
        &&& note.len() > 0 && trimmed(message).len() == 0 ==> turn.text == note
        &&& note.len() > 0 && trimmed(message).len() > 0 ==> turn.text == message + "\n\n"@ + note
    })
    &&& !(steps >= 5 && start.has_files) ==> turn.text == message
    &&& steps >= 6 ==> events[voice + files + 4] == TurnEvent::IdentityLoaded(turn.instructions)
}

/// What the reports on the way to the run of a backend said.
proof fn way_tells_reports(
    start: Turn<Seq<char>, Seq<Seq<char>>>,
    events: Seq<TurnEvent<Seq<char>>>,
)
    requires
        is_series(start, events),
    ensures
        ({
            let turn = turn_after(start, events);
            let voice: int = if start.has_voice {
                1
            } else {
                0
            };
            let files: int = if start.has_files {
                1
            } else {
                0
            };
            &&& turn.has_voice == start.has_voice && turn.has_files == start.has_files
            &&& match turn.stage {
                TurnStage::ReadingOutbound => events.len() == 0 && turn == start,
                TurnStage::PreparingVoice => events.len() == 1 && start.has_voice && events[0]
                    is OutboundMissing,
                TurnStage::FindingRunner => events.len() == voice + 1 && on_the_way(
                    start,
                    events,
                    turn,
                    1,
                ),
                TurnStage::FindingSession => events.len() == voice + 2 && on_the_way(
                    start,
                    events,
                    turn,
                    2,
                ),
                TurnStage::ResolvingWorkDir => events.len() == voice + 3 && on_the_way(
                    start,
                    events,
                    turn,
                    3,
                ),
                TurnStage::PreparingFiles => events.len() == voice + 4 && start.has_files
                    && on_the_way(start, events, turn, 4),
                TurnStage::LoadingIdentity => events.len() == voice + files + 4 && on_the_way(
                    start,
                    events,
                    turn,
                    5,
                ),
                TurnStage::CheckingContext => events.len() == voice + files + 5 && on_the_way(
                    start,
                    events,
                    turn,
                    6,
                ),
                _ => true,
            }
        }),
    decreases events.len(),
{
    if events.len() > 0 {
        let front = events.drop_last();
        let before = turn_after(start, front);
        way_tells_reports(start, front);
        assert(before.awaits(events.last()));
        assert(forall|i: int| 0 <= i < front.len() ==> front[i] == events[i]);
        assert(events[events.len() - 1] == events.last());
    }
}

/// A backend gets exactly what was reported: the session that was found for the thread, to be
/// resumed or created as the report said; the work directory and the instructions that were found;
/// and the message, or what was said in it, with the note about its files behind it.
pub proof fn a_backend_gets_what_was_reported(
    start: Turn<Seq<char>, Seq<Seq<char>>>,
    events: Seq<TurnEvent<Seq<char>>>,
)
    requires
        events.len() > 0,
        is_series(start, events),
        ordered(start, events).task is RunBackend,
    ensures
        ordered(start, events).task matches Task::RunBackend {
            text,
            session,
            is_new,
            work_dir,
            instructions,
        } && led_to_run(start, events, text, session, is_new, work_dir, instructions),
{
    let front = events.drop_last();
    way_tells_reports(start, front);
    assert(turn_after(start, front).awaits(events.last()));
    assert(forall|i: int| 0 <= i < front.len() ==> front[i] == events[i]);
}

/// Whether a report answers a task.
pub open spec fn reports_on(
    task: Task<Seq<char>, Seq<Seq<char>>>,
    event: TurnEvent<Seq<char>>,
) -> bool {
    match event {
        TurnEvent::OutboundMissing | TurnEvent::OutboundStored(_)
        | TurnEvent::OutboundFailed(_) => task is ReadOutbound,
        TurnEvent::VoicePrepared(_) => task is PrepareVoice,
        TurnEvent::CommandAnswered(_) => task is RunCommand || task is RunJobCommand,
        TurnEvent::RunnerFound(_) | TurnEvent::RunnerMissing => task is FindRunner,
        TurnEvent::SessionFound { .. } => task is FindSession,
        TurnEvent::WorkDirFound(_) => task is ResolveWorkDir,
        TurnEvent::FilesPrepared(_) => task is PrepareFiles,
        TurnEvent::IdentityLoaded(_) => task is LoadIdentity,
        TurnEvent::ContextReady => task is CheckContext,
        TurnEvent::SetupFailed(_) => task is FindSession || task is ResolveWorkDir || task
            is LoadIdentity || task is CheckContext,
        TurnEvent::BackendRan(_) | TurnEvent::Interrupted => task is RunBackend,
        TurnEvent::Recorded | TurnEvent::RecordFailed(_) => task is Record,
        TurnEvent::SessionSaved | TurnEvent::SessionSaveFailed(_) => task is SaveSession,
        TurnEvent::Delivered | TurnEvent::DeliveryFailed(_) => task is Deliver,
        TurnEvent::FilesSent => task is SendFiles,
        TurnEvent::ActivityFinished => task is FinishActivity,
        TurnEvent::RowCompleted => task is Complete,
    }
}

/// A turn waits for the reports on what the driver was told to do, and for no others; at first it
/// waits for what the history holds.
pub proof fn a_turn_waits_for_reports_on_its_order(
    text: Seq<char>,
    has_voice: bool,
    has_files: bool,
    turn: Turn<Seq<char>, Seq<Seq<char>>>,
    event: TurnEvent<Seq<char>>,
    next: TurnEvent<Seq<char>>,
)
    requires
        turn.awaits(event),
    ensures
        turn.next(event).0.awaits(next) <==> reports_on(turn.next(event).1.task, next),
        Turn::<Seq<char>, Seq<Seq<char>>>::fresh(text, has_voice, has_files).awaits(next)
            <==> reports_on(Task::<Seq<char>, Seq<Seq<char>>>::ReadOutbound, next),
        is_series(
            Turn::<Seq<char>, Seq<Seq<char>>>::fresh(text, has_voice, has_files),
            Seq::empty(),
        ),
        Turn::<Seq<char>, Seq<Seq<char>>>::fresh(text, has_voice, has_files).text == text,
        Turn::<Seq<char>, Seq<Seq<char>>>::fresh(text, has_voice, has_files).has_voice == has_voice,
        Turn::<Seq<char>, Seq<Seq<char>>>::fresh(text, has_voice, has_files).has_files == has_files,
{
}

/// The end of a delivery is reported as what it is: a reply that reached the channel as delivered,
/// one that cannot go on with the reason, and one that may be tried again not at all.
pub proof fn the_end_of_a_delivery_is_reported(outcome: DeliveryOutcome, error: Seq<char>)
    ensures
        report_of(DeliveryEnd::Reached(outcome), error) == Some(TurnEvent::<Seq<char>>::Delivered),
        report_of(DeliveryEnd::NotDelivered, error) is None,
        report_of(DeliveryEnd::InvalidIndex, error) == Some(TurnEvent::DeliveryFailed(error)),
        report_of(DeliveryEnd::HistoryFailed, error) == Some(TurnEvent::DeliveryFailed(error)),
{
}

/// The short reason of an error is what stands behind its last colon and space, trimmed, or all of
/// it where there is none; where nothing is left, the agent could not be reached.
pub proof fn the_short_reason_is_the_last_one(causes: Seq<char>, last: Seq<char>)
    requires
        !contains(last, ": "@),
    ensures
        short_reason(causes + ": "@ + last) == (if trimmed(last).len() > 0 {
            trimmed(last)
        } else {
            "couldn't reach the agent"@
        }),
        short_reason(last) == (if trimmed(last).len() > 0 {
            trimmed(last)
        } else {
            "couldn't reach the agent"@
        }),
        failure_detail(causes, last) == causes + ": "@ + last,
{
    reveal_strlit(": ");
    let sep = ": "@;
    let s = causes + sep + last;
    let n = causes.len() as int;
    last_match_is_last(s, sep, s.len() as int);
    last_match_is_last(last, sep, last.len() as int);
    assert(s.subrange(n, n + 2) =~= sep);
    assert(occurs_at(s, sep, n));
    let at = last_match(s, sep, s.len() as int)->0;
    assert(at == n) by {
        if at > n {
            assert(s.subrange(at, at + 2)[0] == ':');
            assert(s[at] == ':');
            assert(s[n + 1] == ' ');
            assert(last.subrange(at - n - 2, at - n) =~= s.subrange(at, at + 2));
            assert(occurs_at(last, sep, at - n - 2));
        }
    }
    assert(s.skip(n + 2) =~= last);
    if let Some(i) = last_match(last, sep, last.len() as int) {
        assert(occurs_at(last, sep, i));
    }
}

} // verus!
