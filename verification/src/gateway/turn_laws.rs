//! What holds of every turn, whatever is reported to it.

use crate::gateway::attachments::{attached_paths, without_markers};
use crate::gateway::commands::{command_of, job_command_of};
use crate::gateway::run::RunResult;
use crate::gateway::turn::{
    OutboundOrigin, Task, Turn, TurnEvent, TurnStage, SESSION_SETUP_FAILURE,
};
use vstd::prelude::*;

verus! {

/// The turn after a series of reports.
pub open spec fn turn_after(
    start: Turn<Seq<char>, Seq<Seq<char>>>,
    events: Seq<TurnEvent<Seq<char>>>,
) -> Turn<Seq<char>, Seq<Seq<char>>>
    decreases events.len(),
{
    if events.len() == 0 {
        start
    } else {
        turn_after(start, events.drop_last()).next(events.last()).0
    }
}

/// What the driver was told to do after the first `n` reports of a series.
pub open spec fn told(
    start: Turn<Seq<char>, Seq<Seq<char>>>,
    events: Seq<TurnEvent<Seq<char>>>,
    n: int,
) -> Task<Seq<char>, Seq<Seq<char>>> {
    if n <= 0 {
        Task::ReadOutbound
    } else {
        turn_after(start, events.take(n - 1)).next(events[n - 1]).1.task
    }
}

/// Whether the series is one that a turn can get: it begins with a fresh turn, and every report is
/// waited for.
pub open spec fn is_series(
    start: Turn<Seq<char>, Seq<Seq<char>>>,
    events: Seq<TurnEvent<Seq<char>>>,
) -> bool
    decreases events.len(),
{
    if events.len() == 0 {
        start.stage is ReadingOutbound && start.answer.closing is Silent
    } else {
        is_series(start, events.drop_last()) && turn_after(start, events.drop_last()).awaits(
            events.last(),
        )
    }
}

/// Whether some report of the series says that a reply with this text is in the history: it was
/// found there, or it was recorded.
pub open spec fn is_in_history(
    start: Turn<Seq<char>, Seq<Seq<char>>>,
    events: Seq<TurnEvent<Seq<char>>>,
    text: Seq<char>,
) -> bool {
    exists|i: int| #[trigger] puts_in_history(start, events, i, text)
}

/// Whether this report of the series says that a reply with this text is in the history.
pub open spec fn puts_in_history(
    start: Turn<Seq<char>, Seq<Seq<char>>>,
    events: Seq<TurnEvent<Seq<char>>>,
    i: int,
    text: Seq<char>,
) -> bool {
    &&& 0 <= i < events.len()
    &&& {
        ||| events[i] == TurnEvent::OutboundStored(text)
        ||| events[i] is Recorded && (told(start, events, i) matches Task::Record { text: t, .. }
            && t == text)
    }
}

/// Whether some report of the series says that the reply reached the channel.
pub open spec fn reached_channel(events: Seq<TurnEvent<Seq<char>>>) -> bool {
    exists|i: int| 0 <= i < events.len() && #[trigger] events[i] is Delivered
}

/// What is told and recorded of a shorter series is told and recorded of the longer one.
proof fn history_of_prefix(
    start: Turn<Seq<char>, Seq<Seq<char>>>,
    events: Seq<TurnEvent<Seq<char>>>,
    text: Seq<char>,
)
    requires
        events.len() > 0,
    ensures
        forall|n: int|
            0 <= n < events.len() ==> told(start, events.drop_last(), n) == #[trigger] told(
                start,
                events,
                n,
            ),
        is_in_history(start, events.drop_last(), text) ==> is_in_history(start, events, text),
        reached_channel(events.drop_last()) ==> reached_channel(events),
{
    let front = events.drop_last();
    assert forall|n: int| 0 <= n < events.len() implies told(start, front, n) == #[trigger] told(
        start,
        events,
        n,
    ) by {
        if n > 0 {
            assert(front.take(n - 1) =~= events.take(n - 1));
        }
    }
    if is_in_history(start, front, text) {
        let i = choose|i: int| #[trigger] puts_in_history(start, front, i, text);
        assert(puts_in_history(start, events, i, text)) by {
            assert(told(start, events, i) == told(start, front, i));
        }
    }
    if reached_channel(front) {
        let i = choose|i: int| 0 <= i < front.len() && #[trigger] front[i] is Delivered;
        assert(events[i] is Delivered);
    }
}

/// What a stage says of the series that led to it.
proof fn stage_tells_series(
    start: Turn<Seq<char>, Seq<Seq<char>>>,
    events: Seq<TurnEvent<Seq<char>>>,
)
    requires
        is_series(start, events),
    ensures
        ({
            let turn = turn_after(start, events);
            &&& turn.stage is Recording ==> events.len() > 0 && (told(
                start,
                events,
                events.len() as int,
            ) matches Task::Record { text, .. } && text == turn.answer.text)
            &&& turn.stage is SavingSession || turn.stage is Delivering || turn.stage
                is SendingFiles || turn.stage is FinishingActivity ==> is_in_history(
                start,
                events,
                turn.answer.text,
            )
            &&& turn.stage is SendingFiles || turn.stage is FinishingActivity
                ==> reached_channel(events)
        }),
    decreases events.len(),
{
    if events.len() > 0 {
        let front = events.drop_last();
        let before = turn_after(start, front);
        let turn = turn_after(start, events);
        let last = events.len() - 1;
        stage_tells_series(start, front);
        history_of_prefix(start, events, turn.answer.text);
        assert(events.take(last) =~= front);
        assert(told(start, events, events.len() as int) == before.next(events.last()).1.task);
        if events.last() is Recorded {
            assert(puts_in_history(start, events, last, turn.answer.text)) by {
                assert(told(start, events, last) == told(start, front, last));
            }
        }
        if events.last() is OutboundStored {
            assert(puts_in_history(start, events, last, turn.answer.text));
        }
        if events.last() is Delivered {
            assert(events[last] is Delivered);
        }
    }
}

/// No reply is delivered that the history does not hold: where a delivery is ordered, an earlier
/// report said that the reply was found in the history, or that it was recorded.
pub proof fn delivery_follows_recording(
    start: Turn<Seq<char>, Seq<Seq<char>>>,
    events: Seq<TurnEvent<Seq<char>>>,
)
    requires
        is_series(start, events),
        told(start, events, events.len() as int) is Deliver,
    ensures
        is_in_history(start, events, turn_after(start, events).answer.text),
{
    stage_tells_series(start, events);
    if events.len() > 0 {
        assert(events.take(events.len() - 1) =~= events.drop_last());
    }
}

/// A row is completed only once its reply is in the history and has reached the channel, or where
/// there is no backend that could answer; then no reply is claimed.
pub proof fn completion_follows_delivery(
    start: Turn<Seq<char>, Seq<Seq<char>>>,
    events: Seq<TurnEvent<Seq<char>>>,
)
    requires
        is_series(start, events),
        told(start, events, events.len() as int) is Complete,
    ensures
        told(start, events, events.len() as int) matches Task::Complete { reply, .. } && match reply {
            Some(text) => is_in_history(start, events, text) && reached_channel(events),
            None => events.last() is RunnerMissing,
        },
{
    assert(events.len() > 0);
    let front = events.drop_last();
    let before = turn_after(start, front);
    assert(events.take(events.len() - 1) =~= front);
    stage_tells_series(start, front);
    history_of_prefix(start, events, before.answer.text);
    if events.last() is Delivered {
        assert(events[events.len() - 1] is Delivered);
    }
}

/// A message whose reply the history holds already is not worked on again: no command is carried
/// out, no backend is run and nothing is recorded; its reply is delivered.
pub proof fn a_stored_reply_is_only_delivered(
    start: Turn<Seq<char>, Seq<Seq<char>>>,
    events: Seq<TurnEvent<Seq<char>>>,
    n: int,
)
    requires
        is_series(start, events),
        0 < n <= events.len(),
        events[0] is OutboundStored,
    ensures
        told(start, events, 1) is Deliver,
        told(start, events, n) is Deliver || told(start, events, n) is Complete || told(
            start,
            events,
            n,
        ) is Stop,
        turn_after(start, events.take(1)).answer.text == events[0]->OutboundStored_0,
        ({
            let turn = turn_after(start, events);
            turn.answer.closing is Silent && turn.answer.text == events[0]->OutboundStored_0 && (
            turn.stage is Delivering || turn.stage is Completing || turn.stage is Ended)
        }),
    decreases events.len(),
{
    let front = events.drop_last();
    assert(events.take(events.len() - 1) =~= front);
    reveal_with_fuel(turn_after, 2);
    reveal_with_fuel(is_series, 2);
    assert(events.take(0) =~= Seq::<TurnEvent<Seq<char>>>::empty());
    assert(events.take(1).drop_last() =~= Seq::<TurnEvent<Seq<char>>>::empty());
    history_of_prefix(start, events, Seq::empty());
    if events.len() > 1 {
        a_stored_reply_is_only_delivered(start, front, if n < events.len() {
            n
        } else {
            1
        });
        assert(front.take(1) =~= events.take(1));
        assert(told(start, events, 1) == told(start, front, 1));
        if n < events.len() {
            assert(told(start, events, n) == told(start, front, n));
        }
    } else {
        assert(front =~= Seq::<TurnEvent<Seq<char>>>::empty());
    }
}

/// Only a message that holds no command reaches a backend: before a backend is run, the message
/// stood as one without a command of the gateway or about jobs, and was sent to the runner.
pub proof fn only_plain_messages_reach_a_backend(
    start: Turn<Seq<char>, Seq<Seq<char>>>,
    events: Seq<TurnEvent<Seq<char>>>,
)
    requires
        is_series(start, events),
        turn_after(start, events).stage is FindingRunner || turn_after(start, events).stage
            is FindingSession || turn_after(start, events).stage is ResolvingWorkDir || turn_after(
            start,
            events,
        ).stage is PreparingFiles || turn_after(start, events).stage is LoadingIdentity
            || turn_after(start, events).stage is CheckingContext || turn_after(start, events).stage
            is RunningBackend,
    ensures
        exists|n: int|
            0 < n <= events.len() && #[trigger] told(start, events, n) is FindRunner && command_of(
                turn_after(start, events.take(n)).text,
            ) is None && job_command_of(turn_after(start, events.take(n)).text) is None,
    decreases events.len(),
{
    let front = events.drop_last();
    let last = events.len() as int;
    assert(events.take(last - 1) =~= front);
    assert(events.take(last) =~= events);
    if told(start, events, last) is FindRunner {
    } else {
        only_plain_messages_reach_a_backend(start, front);
        history_of_prefix(start, events, Seq::empty());
        let n = choose|n: int|
            0 < n <= front.len() && #[trigger] told(start, front, n) is FindRunner && command_of(
                turn_after(start, front.take(n)).text,
            ) is None && job_command_of(turn_after(start, front.take(n)).text) is None;
        assert(front.take(n) =~= events.take(n));
        assert(told(start, events, n) == told(start, front, n));
    }
}

impl Turn<Seq<char>, Seq<Seq<char>>> {
    /// The most reports that a turn takes until it ends.
    pub open spec fn reports_left(self) -> nat {
        match self.stage {
            TurnStage::ReadingOutbound => 17,
            TurnStage::PreparingVoice => 16,
            TurnStage::FindingRunner => 15,
            TurnStage::FindingSession => 14,
            TurnStage::ResolvingWorkDir => 13,
            TurnStage::PreparingFiles => 12,
            TurnStage::LoadingIdentity => 11,
            TurnStage::CheckingContext => 10,
            TurnStage::RunningBackend => 9,
            TurnStage::AnsweringCommand | TurnStage::AnsweringJobCommand => 9,
            TurnStage::Recording => 8,
            TurnStage::SavingSession => 7,
            TurnStage::Delivering => 6,
            TurnStage::SendingFiles => 5,
            TurnStage::FinishingActivity => 4,
            TurnStage::Completing => 3,
            TurnStage::ClosingActivity => 2,
            TurnStage::Ended => 0,
        }
    }
}

/// Every report brings a turn nearer to its end, and the driver is told to stop exactly at the
/// end.
pub proof fn a_turn_ends(turn: Turn<Seq<char>, Seq<Seq<char>>>, event: TurnEvent<Seq<char>>)
    requires
        turn.awaits(event),
    ensures
        turn.next(event).0.reports_left() < turn.reports_left() <= 17,
        turn.next(event).0.stage is Ended <==> turn.next(event).1.task is Stop,
{
}

/// Whether some report of the series says that the run failed, timed out or was stopped.
pub open spec fn ran_badly(events: Seq<TurnEvent<Seq<char>>>) -> bool {
    exists|i: int| 0 <= i < events.len() && is_bad_run(#[trigger] events[i])
}

/// Whether a report says that the run failed, timed out or was stopped.
pub open spec fn is_bad_run(event: TurnEvent<Seq<char>>) -> bool {
    event is Interrupted || (event matches TurnEvent::BackendRan(result) && result !is Replied)
}

/// Whether the driver was told to mark the message as answered or not.
pub open spec fn was_marked(
    start: Turn<Seq<char>, Seq<Seq<char>>>,
    events: Seq<TurnEvent<Seq<char>>>,
    answered: bool,
) -> bool {
    exists|n: int|
        0 < n <= events.len() && #[trigger] told(start, events, n) == Task::<
            Seq<char>,
            Seq<Seq<char>>,
        >::FinishActivity(answered)
}

/// What the kind of closing says of the series that led to it.
#[verifier::rlimit(50)]
#[verifier::spinoff_prover]
proof fn closing_tells_series(
    start: Turn<Seq<char>, Seq<Seq<char>>>,
    events: Seq<TurnEvent<Seq<char>>>,
)
    requires
        is_series(start, events),
    ensures
        ({
            let turn = turn_after(start, events);
            &&& ran_badly(events) <==> turn.answer.closing is Failure
            &&& turn.is_before_run() || turn.stage is RunningBackend ==> turn.answer.closing
                is Silent
            &&& turn.stage is SavingSession || turn.stage is SendingFiles || turn.stage
                is FinishingActivity ==> turn.answer.closing is Success
            &&& turn.stage is ClosingActivity ==> turn.answer.closing is Failure && was_marked(
                start,
                events,
                false,
            )
            &&& was_marked(start, events, true) ==> turn.answer.closing is Success
                && reached_channel(events)
            &&& was_marked(start, events, false) ==> turn.answer.closing is Failure
            &&& turn.stage is Ended && turn.answer.closing is Failure ==> events.last()
                is RecordFailed || was_marked(start, events, false)
        }),
    decreases events.len(),
{
    let turn = turn_after(start, events);
    if events.len() > 0 {
        let front = events.drop_last();
        let before = turn_after(start, front);
        let last = events.len() as int;
        closing_tells_series(start, front);
        stage_tells_series(start, front);
        history_of_prefix(start, events, Seq::empty());
        assert(events.take(last - 1) =~= front);
        assert(told(start, events, last) == before.next(events[last - 1]).1.task);
        if ran_badly(front) {
            let i = choose|i: int| 0 <= i < front.len() && is_bad_run(#[trigger] front[i]);
            assert(is_bad_run(events[i]));
        }
        if ran_badly(events) && !ran_badly(front) {
            let i = choose|i: int| 0 <= i < events.len() && is_bad_run(#[trigger] events[i]);
            assert(i == last - 1) by {
                if i < last - 1 {
                    assert(is_bad_run(front[i]));
                }
            }
        }
        if is_bad_run(events[last - 1]) {
            assert(ran_badly(events));
        }
        if events[last - 1] is Delivered {
            assert(reached_channel(events));
        }
        assert forall|answered: bool| was_marked(start, front, answered) implies was_marked(
            start,
            events,
            answered,
        ) by {
            let n = choose|n: int|
                0 < n <= front.len() && #[trigger] told(start, front, n) == Task::<
                    Seq<char>,
                    Seq<Seq<char>>,
                >::FinishActivity(answered);
            assert(told(start, events, n) == told(start, front, n));
        }
        assert forall|answered: bool|
            was_marked(start, events, answered) && told(start, events, last) != Task::<
                Seq<char>,
                Seq<Seq<char>>,
            >::FinishActivity(answered) implies was_marked(start, front, answered) by {
            let n = choose|n: int|
                0 < n <= events.len() && #[trigger] told(start, events, n) == Task::<
                    Seq<char>,
                    Seq<Seq<char>>,
                >::FinishActivity(answered);
            assert(told(start, front, n) == told(start, events, n));
        }
    }
}

/// A run that failed, timed out or was stopped is marked as not answered by the time that its turn
/// ends, unless its reply could not be recorded. A message is marked as answered only once its
/// reply has reached the channel, and as not answered only where the run went badly.
pub proof fn the_mark_tells_the_outcome(
    start: Turn<Seq<char>, Seq<Seq<char>>>,
    events: Seq<TurnEvent<Seq<char>>>,
)
    requires
        is_series(start, events),
    ensures
        turn_after(start, events).stage is Ended && ran_badly(events) && events.last()
            !is RecordFailed ==> was_marked(start, events, false),
        was_marked(start, events, true) ==> reached_channel(events) && !ran_badly(events),
        was_marked(start, events, false) ==> ran_badly(events),
{
    closing_tells_series(start, events);
}

/// A failed setup cannot wedge its row: once the sender has been told, the row is complete, and the
/// turn ends.
pub proof fn a_failed_setup_completes_its_row(
    turn: Turn<Seq<char>, Seq<Seq<char>>>,
    error: Seq<char>,
)
    requires
        turn.awaits(TurnEvent::SetupFailed(error)),
    ensures
        ({
            let told = turn.next(TurnEvent::SetupFailed(error));
            let recorded = told.0.next(TurnEvent::Recorded);
            let delivered = recorded.0.next(TurnEvent::Delivered);
            let completed = delivered.0.next(TurnEvent::RowCompleted);
            &&& told.1.task == Task::<Seq<char>, Seq<Seq<char>>>::Record {
                origin: OutboundOrigin::Gateway,
                text: SESSION_SETUP_FAILURE@,
            }
            &&& recorded.1.task is Deliver
            &&& delivered.1.task == Task::<Seq<char>, Seq<Seq<char>>>::Complete {
                reply: Some(SESSION_SETUP_FAILURE@),
                reason: "setup_failed",
            }
            &&& completed.1.task is Stop
        }),
{
}

/// What is delivered of a reply of a backend is the reply without its attach markers, and the files
/// that go out behind it are those that the markers name.
pub proof fn a_reply_goes_out_without_its_markers(
    turn: Turn<Seq<char>, Seq<Seq<char>>>,
    reply: Seq<char>,
    session: Option<Seq<char>>,
)
    requires
        turn.stage is RunningBackend,
    ensures
        ({
            let ran = turn.next(TurnEvent::BackendRan(RunResult::Replied { reply, session }));
            let recorded = ran.0.next(TurnEvent::Recorded);
            let saved = recorded.0.next(TurnEvent::SessionSaved);
            let delivered = saved.0.next(TurnEvent::Delivered);
            &&& ran.1.task == Task::<Seq<char>, Seq<Seq<char>>>::Record {
                origin: OutboundOrigin::Backend,
                text: without_markers(reply),
            }
            &&& recorded.1.task == Task::<Seq<char>, Seq<Seq<char>>>::SaveSession(session)
            &&& saved.1.task is Deliver
            &&& attached_paths(reply).len() > 0 ==> delivered.1.task == Task::<
                Seq<char>,
                Seq<Seq<char>>,
            >::SendFiles(attached_paths(reply))
            &&& attached_paths(reply).len() == 0 ==> delivered.1.task == Task::<
                Seq<char>,
                Seq<Seq<char>>,
            >::FinishActivity(true)
        }),
{
}

} // verus!
