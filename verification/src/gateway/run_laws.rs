//! What holds of every run of a message through a backend, whatever is reported to it.

use crate::gateway::run::{
    is_series, reports_in_use, run_after, says_in_use, BackendRun, Request, RunAction, RunEvent,
    RunResult, RunStage,
};
use crate::text::{lowercase, occurs_at};
use vstd::prelude::*;

verus! {

/// What the driver is told after a series of reports.
pub open spec fn run_told(
    start: BackendRun<Seq<char>>,
    events: Seq<RunEvent<Seq<char>>>,
) -> RunAction<Seq<char>> {
    run_after(start, events.drop_last()).next(events.last()).1
}

/// Whether a report says that the backend has lost the session.
pub open spec fn is_lost(event: RunEvent<Seq<char>>) -> bool {
    event matches RunEvent::Ran(result) && result is SessionMissing
}

/// What the stage of a run says of the reports that led to it.
proof fn stage_tells_reports(
    run: BackendRun<Seq<char>>,
    is_new: bool,
    events: Seq<RunEvent<Seq<char>>>,
)
    requires
        is_series(run.first(is_new).0, events),
    ensures
        ({
            let now = run_after(run.first(is_new).0, events);
            &&& now.text == run.text && now.mark_early == run.mark_early && now.work_dir
                == run.work_dir && now.instructions == run.instructions
            &&& match now.stage {
                RunStage::Loading => is_new && events.len() == 0 && now.session == run.session,
                RunStage::Continuing => !is_new && events.len() == 0 && now.session == run.session,
                RunStage::Creating => is_new && events.len() == 1 && events[0] is HistoryLoaded
                    && now.session == run.session,
                RunStage::Resuming => is_new && events.len() == 2 && events[0] is HistoryLoaded
                    && reports_in_use(events[1]) && now.session == run.session,
                RunStage::Rotating => !is_new && events.len() == 1 && is_lost(events[0]),
                RunStage::Reloading => !is_new && events.len() == 2 && is_lost(events[0])
                    && events[1] == RunEvent::Rotated(now.session),
                RunStage::Restarting => !is_new && events.len() == 3 && is_lost(events[0])
                    && events[1] == RunEvent::Rotated(now.session) && events[2] is HistoryLoaded,
                RunStage::Ended => events.len() > 0,
            }
        }),
    decreases events.len(),
{
    if events.len() > 0 {
        let front = events.drop_last();
        stage_tells_reports(run, is_new, front);
        assert(forall|i: int| 0 <= i < front.len() ==> front[i] == events[i]);
        let before = run_after(run.first(is_new).0, front);
        assert(before.awaits(events.last()));
    }
}

/// A new session starts with the history of its thread; a known one gets the message at once.
pub proof fn a_run_starts_by_its_session(run: BackendRun<Seq<char>>, is_new: bool)
    ensures
        is_new ==> run.first(is_new).1 == RunAction::<Seq<char>>::LoadHistory,
        !is_new ==> run.first(is_new).1 == (RunAction::Run {
            mark_started: false,
            announce: Some(0),
            request: Request {
                session_id: run.session,
                is_new: false,
                work_dir: run.work_dir,
                instructions: run.instructions,
                prompt: run.text,
            },
        }),
{
}

/// A run that replied or took too long ends with exactly that result, whenever it happens; so does
/// one that failed, unless a session could not be created because it is there already, and one
/// whose session is lost, unless that session was to be resumed at first.
pub proof fn a_result_ends_the_run(
    run: BackendRun<Seq<char>>,
    is_new: bool,
    events: Seq<RunEvent<Seq<char>>>,
    result: RunResult<Seq<char>>,
)
    requires
        events.len() > 0,
        events.last() == RunEvent::Ran(result),
        is_series(run.first(is_new).0, events),
    ensures
        result is Replied || result is TimedOut ==> run_told(run.first(is_new).0, events)
            == RunAction::Finish(result),
        result is Failed && !(is_new && events.len() == 2 && reports_in_use(events.last()))
            ==> run_told(run.first(is_new).0, events) == RunAction::Finish(result),
        result is SessionMissing && !(!is_new && events.len() == 1) ==> run_told(
            run.first(is_new).0,
            events,
        ) == RunAction::Finish(result),
{
    stage_tells_reports(run, is_new, events.drop_last());
}

/// A session is replaced exactly where the first report on it is that it is lost, and it was not a
/// new one.
pub proof fn only_a_lost_session_is_replaced(
    run: BackendRun<Seq<char>>,
    is_new: bool,
    events: Seq<RunEvent<Seq<char>>>,
)
    requires
        events.len() > 0,
        is_series(run.first(is_new).0, events),
    ensures
        run_told(run.first(is_new).0, events) is Rotate <==> !is_new && events.len() == 1
            && is_lost(events[0]),
{
    stage_tells_reports(run, is_new, events.drop_last());
}

/// Every run that a report leads to: it creates a new session with the history just loaded, it
/// resumes a session that was there already, or it creates the fresh session that took the place of
/// a lost one. Each has the work directory and the instructions of the message; a session that is
/// resumed gets the message itself, and so does a new one without a history. What is stored and
/// announced of a creation is left out where a session is resumed.
pub proof fn every_run_has_its_reason(
    run: BackendRun<Seq<char>>,
    is_new: bool,
    events: Seq<RunEvent<Seq<char>>>,
)
    requires
        events.len() > 0,
        is_series(run.first(is_new).0, events),
        run_told(run.first(is_new).0, events) is Run,
    ensures
        run_told(run.first(is_new).0, events) matches RunAction::Run {
            mark_started,
            announce,
            request,
        } && {
            &&& request.work_dir == run.work_dir && request.instructions == run.instructions
            &&& match events.last() {
                RunEvent::HistoryLoaded { prompt, count } => {
                    &&& if is_new {
                        events.len() == 1 && request.session_id == run.session
                    } else {
                        events.len() == 3 && is_lost(events[0]) && events[1] == RunEvent::Rotated(
                            request.session_id,
                        )
                    }
                    &&& request.is_new
                    &&& mark_started == run.mark_early
                    &&& announce == Some(count)
                    &&& count > 0 ==> request.prompt == prompt
                    &&& count == 0 ==> request.prompt == run.text
                },
                RunEvent::Ran(result) => {
                    &&& is_new && events.len() == 2
                    &&& reports_in_use(events[1])
                    &&& request.session_id == run.session
                    &&& !request.is_new
                    &&& request.prompt == run.text
                    &&& !mark_started
                    &&& announce is None
                },
                _ => false,
            }
        },
{
    let front = events.drop_last();
    stage_tells_reports(run, is_new, front);
    assert(forall|i: int| 0 <= i < front.len() ==> front[i] == events[i]);
}

/// A history that is loaded leads to a run, a fresh session to its history, and a session that is
/// there already to a run that resumes it; where history or session cannot be had, the run fails
/// with the reason.
pub proof fn every_report_leads_on(
    run: BackendRun<Seq<char>>,
    is_new: bool,
    events: Seq<RunEvent<Seq<char>>>,
)
    requires
        events.len() > 0,
        is_series(run.first(is_new).0, events),
    ensures
        ({
            let told = run_told(run.first(is_new).0, events);
            match events.last() {
                RunEvent::HistoryLoaded { .. } => told is Run,
                RunEvent::Rotated(_) => told is LoadHistory,
                RunEvent::HistoryFailed(error) => told == RunAction::Finish(
                    RunResult::Failed("load canonical history for rehydration: "@ + error),
                ),
                RunEvent::RotationFailed(error) => told == RunAction::Finish(
                    RunResult::Failed("rotate missing backend session: "@ + error),
                ),
                RunEvent::Ran(_) => is_new && events.len() == 2 && reports_in_use(events[1])
                    ==> told is Run,
            }
        }),
{
    let front = events.drop_last();
    stage_tells_reports(run, is_new, front);
    assert(forall|i: int| 0 <= i < front.len() ==> front[i] == events[i]);
}

/// Whether a run takes a report exactly where it answers what the driver was told to do.
pub open spec fn answers(action: RunAction<Seq<char>>, event: RunEvent<Seq<char>>) -> bool {
    match event {
        RunEvent::HistoryLoaded { .. } | RunEvent::HistoryFailed(_) => action is LoadHistory,
        RunEvent::Rotated(_) | RunEvent::RotationFailed(_) => action is Rotate,
        RunEvent::Ran(_) => action is Run,
    }
}

/// A run waits for the reports that answer what the driver was told to do, and for no others.
pub proof fn a_run_waits_for_answers(
    run: BackendRun<Seq<char>>,
    is_new: bool,
    event: RunEvent<Seq<char>>,
    next: RunEvent<Seq<char>>,
)
    ensures
        run.first(is_new).0.awaits(next) <==> answers(run.first(is_new).1, next),
        run.awaits(event) ==> (run.next(event).0.awaits(next) <==> answers(
            run.next(event).1,
            next,
        )),
{
}

/// An error says that the session is there already where it holds those words.
pub proof fn in_use_is_said_in_words(before: Seq<char>, after: Seq<char>, error: Seq<char>)
    ensures
        says_in_use(before + "already in use"@ + after),
        says_in_use(error) ==> exists|a: Seq<char>, b: Seq<char>|
            error == #[trigger] (a + "already in use"@ + b),
{
    let words = "already in use"@;
    let s = before + words + after;
    assert(s.subrange(before.len() as int, (before.len() + words.len()) as int) =~= words);
    assert(occurs_at(s, words, before.len() as int));
    if says_in_use(error) {
        let at = choose|at: int| occurs_at(error, words, at);
        assert(error =~= error.take(at) + words + error.skip(at + words.len()));
    }
}

/// Only a failure that says so, in any case, reports that the session is there already.
pub proof fn only_a_failure_reports_in_use(event: RunEvent<Seq<char>>)
    ensures
        reports_in_use(event) <==> match event {
            RunEvent::Ran(RunResult::Failed(error)) => says_in_use(lowercase(error)),
            _ => false,
        },
{
}

/// Given whether a report says that the session is there already, that matters for a failed creation
/// and for nothing else.
pub proof fn in_use_matters_for_failed_creations(
    run: BackendRun<Seq<char>>,
    event: RunEvent<Seq<char>>,
    error: Seq<char>,
)
    ensures
        run.next(event) == run.next_given(event, reports_in_use(event)),
        !(event matches RunEvent::Ran(result) && result is Failed) ==> run.next_given(event, true)
            == run.next_given(event, false),
        run.next_given(RunEvent::Ran(RunResult::Failed(error)), false).1 == RunAction::Finish(
            RunResult::Failed(error),
        ),
        run.stage !is Creating ==> run.next_given(RunEvent::Ran(RunResult::Failed(error)), true).1
            == RunAction::Finish(RunResult::Failed(error)),
        run.stage is Creating ==> run.next_given(RunEvent::Ran(RunResult::Failed(error)), true).1
            == (RunAction::Run {
            mark_started: false,
            announce: None,
            request: Request {
                session_id: run.session,
                is_new: false,
                work_dir: run.work_dir,
                instructions: run.instructions,
                prompt: run.text,
            },
        }),
{
}

} // verus!
