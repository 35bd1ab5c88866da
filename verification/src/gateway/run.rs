//! Running one message through an agent backend, with recovery of its session.
//!
//! A new session starts with the recent history of its thread. A session that the backend already
//! knows is resumed; one that it has lost is replaced and started anew.

use crate::text::{contains, has, lowercase, maybe, to_lowercase};
use vstd::prelude::*;

verus! {

/// What a backend is asked. The text type `S` is `String` in the program and a sequence of
/// characters in contracts.
#[derive(Debug)]
pub struct Request<S> {
    pub session_id: S,
    /// Whether the backend creates the session.
    pub is_new: bool,
    pub work_dir: S,
    pub instructions: S,
    pub prompt: S,
}

impl View for Request<String> {
    type V = Request<Seq<char>>;

    open spec fn view(&self) -> Request<Seq<char>> {
        Request {
            session_id: self.session_id@,
            is_new: self.is_new,
            work_dir: self.work_dir@,
            instructions: self.instructions@,
            prompt: self.prompt@,
        }
    }
}

/// Writes down what a backend is asked.
pub fn backend_request(
    session_id: &str,
    is_new: bool,
    work_dir: &str,
    instructions: &str,
    prompt: &str,
) -> (request: Request<String>)
    ensures
        request@ == (Request {
            session_id: session_id@,
            is_new,
            work_dir: work_dir@,
            instructions: instructions@,
            prompt: prompt@,
        }),
{
    Request {
        session_id: session_id.to_owned(),
        is_new,
        work_dir: work_dir.to_owned(),
        instructions: instructions.to_owned(),
        prompt: prompt.to_owned(),
    }
}

/// How a run of the backend ends.
#[derive(Debug)]
pub enum RunResult<S> {
    /// The reply, and the id of the session where the backend gave one.
    Replied { reply: S, session: Option<S> },
    TimedOut,
    Failed(S),
    /// The backend does not know the session that it was to resume.
    SessionMissing(S),
}

impl View for RunResult<String> {
    type V = RunResult<Seq<char>>;

    open spec fn view(&self) -> RunResult<Seq<char>> {
        match self {
            RunResult::Replied { reply, session } => RunResult::Replied {
                reply: reply@,
                session: maybe(*session),
            },
            RunResult::TimedOut => RunResult::TimedOut,
            RunResult::Failed(error) => RunResult::Failed(error@),
            RunResult::SessionMissing(error) => RunResult::SessionMissing(error@),
        }
    }
}

/// What the driver does next.
#[derive(Debug)]
pub enum RunAction<S> {
    /// Compose the prompt from the recent messages of the thread.
    LoadHistory,
    /// Run the backend. Before that: store that the session is started, where `mark_started` says
    /// so, and audit the start of a run, where `announce` gives the number of messages that the
    /// prompt repeats.
    Run { mark_started: bool, announce: Option<usize>, request: Request<S> },
    /// Audit that the session is missing, and put a fresh one in its place.
    Rotate,
    Finish(RunResult<S>),
}

impl View for RunAction<String> {
    type V = RunAction<Seq<char>>;

    open spec fn view(&self) -> RunAction<Seq<char>> {
        match self {
            RunAction::LoadHistory => RunAction::LoadHistory,
            RunAction::Run { mark_started, announce, request } => RunAction::Run {
                mark_started: *mark_started,
                announce: *announce,
                request: request@,
            },
            RunAction::Rotate => RunAction::Rotate,
            RunAction::Finish(result) => RunAction::Finish(result@),
        }
    }
}

/// What the driver reports; errors come as text.
#[derive(Debug)]
pub enum RunEvent<S> {
    /// The composed prompt, and how many messages it repeats.
    HistoryLoaded { prompt: S, count: usize },
    HistoryFailed(S),
    /// The id of the fresh session.
    Rotated(S),
    RotationFailed(S),
    Ran(RunResult<S>),
}

impl View for RunEvent<String> {
    type V = RunEvent<Seq<char>>;

    open spec fn view(&self) -> RunEvent<Seq<char>> {
        match self {
            RunEvent::HistoryLoaded { prompt, count } => RunEvent::HistoryLoaded {
                prompt: prompt@,
                count: *count,
            },
            RunEvent::HistoryFailed(error) => RunEvent::HistoryFailed(error@),
            RunEvent::Rotated(session) => RunEvent::Rotated(session@),
            RunEvent::RotationFailed(error) => RunEvent::RotationFailed(error@),
            RunEvent::Ran(result) => RunEvent::Ran(result@),
        }
    }
}

/// What a run waits for.
#[derive(Debug, Clone, Copy, PartialEq, Eq, Structural)]
pub enum RunStage {
    /// The history for a new session.
    Loading,
    /// The first run, which creates the session.
    Creating,
    /// The first run, which resumes the session.
    Continuing,
    /// The second run, which resumes a session that was there already.
    Resuming,
    /// A fresh session for a lost one.
    Rotating,
    /// The history for the fresh session.
    Reloading,
    /// The second run, which creates the fresh session.
    Restarting,
    Ended,
}

/// A message on its way through a backend.
#[derive(Debug)]
pub struct BackendRun<S> {
    /// The message.
    pub text: S,
    /// The session in use.
    pub session: S,
    /// Whether the session is stored as started before the backend runs: so where Push chose its
    /// id, lest a failure after its creation lead to a second creation.
    pub mark_early: bool,
    pub work_dir: S,
    pub instructions: S,
    pub stage: RunStage,
}

impl View for BackendRun<String> {
    type V = BackendRun<Seq<char>>;

    open spec fn view(&self) -> BackendRun<Seq<char>> {
        BackendRun {
            text: self.text@,
            session: self.session@,
            mark_early: self.mark_early,
            work_dir: self.work_dir@,
            instructions: self.instructions@,
            stage: self.stage,
        }
    }
}

/// Whether an error message, in lower case, says that the session is there already.
pub open spec fn says_in_use(lower: Seq<char>) -> bool {
    contains(lower, "already in use"@)
}

/// Whether a report says that the session is there already.
pub open spec fn reports_in_use(event: RunEvent<Seq<char>>) -> bool {
    match event {
        RunEvent::Ran(RunResult::Failed(error)) => says_in_use(lowercase(error)),
        _ => false,
    }
}

/// Tells whether an error message, given in lower case, says that the session is there already.
pub fn session_in_use(lower: &str) -> (yes: bool)
    ensures
        yes == says_in_use(lower@),
{
    has(lower, "already in use")
}

impl BackendRun<Seq<char>> {
    /// The run at a stage.
    pub open spec fn at(self, stage: RunStage) -> BackendRun<Seq<char>> {
        BackendRun { stage, ..self }
    }

    /// The run at its end.
    pub open spec fn ended(self, result: RunResult<Seq<char>>) -> (
        BackendRun<Seq<char>>,
        RunAction<Seq<char>>,
    ) {
        (self.at(RunStage::Ended), RunAction::Finish(result))
    }

    /// What the backend is asked.
    pub open spec fn request(self, is_new: bool, prompt: Seq<char>) -> Request<Seq<char>> {
        Request {
            session_id: self.session,
            is_new,
            work_dir: self.work_dir,
            instructions: self.instructions,
            prompt,
        }
    }

    /// What to do first with a message for a session that is new or not.
    pub open spec fn first(self, is_new: bool) -> (BackendRun<Seq<char>>, RunAction<Seq<char>>) {
        if is_new {
            (self.at(RunStage::Loading), RunAction::LoadHistory)
        } else {
            (
                self.at(RunStage::Continuing),
                RunAction::Run {
                    mark_started: false,
                    announce: Some(0),
                    request: self.request(false, self.text),
                },
            )
        }
    }

    /// The run that creates its session. The composed prompt is used where it repeats messages.
    pub open spec fn creating(self, stage: RunStage, prompt: Seq<char>, count: usize) -> (
        BackendRun<Seq<char>>,
        RunAction<Seq<char>>,
    ) {
        (
            self.at(stage),
            RunAction::Run {
                mark_started: self.mark_early,
                announce: Some(count),
                request: self.request(
                    true,
                    if count > 0 {
                        prompt
                    } else {
                        self.text
                    },
                ),
            },
        )
    }

    /// Whether the run waits for a report of this kind.
    pub open spec fn awaits(self, event: RunEvent<Seq<char>>) -> bool {
        match event {
            RunEvent::HistoryLoaded { .. } | RunEvent::HistoryFailed(_) => self.stage is Loading
                || self.stage is Reloading,
            RunEvent::Rotated(_) | RunEvent::RotationFailed(_) => self.stage is Rotating,
            RunEvent::Ran(_) => self.stage is Creating || self.stage is Continuing || self.stage
                is Resuming || self.stage is Restarting,
        }
    }

    /// The run after a report, given whether it says that the session is there already, and what
    /// to do next.
    pub open spec fn next_given(self, event: RunEvent<Seq<char>>, in_use: bool) -> (
        BackendRun<Seq<char>>,
        RunAction<Seq<char>>,
    ) {
        match event {
            RunEvent::HistoryLoaded { prompt, count } => if self.stage is Loading {
                self.creating(RunStage::Creating, prompt, count)
            } else {
                self.creating(RunStage::Restarting, prompt, count)
            },
            RunEvent::HistoryFailed(error) => self.ended(
                RunResult::Failed("load canonical history for rehydration: "@ + error),
            ),
            RunEvent::Rotated(session) => (
                (BackendRun { session, ..self }).at(RunStage::Reloading),
                RunAction::LoadHistory,
            ),
            RunEvent::RotationFailed(error) => self.ended(
                RunResult::Failed("rotate missing backend session: "@ + error),
            ),
            RunEvent::Ran(result) => if self.stage is Creating && result is Failed && in_use {
                (
                    self.at(RunStage::Resuming),
                    RunAction::Run {
                        mark_started: false,
                        announce: None,
                        request: self.request(false, self.text),
                    },
                )
            } else if self.stage is Continuing && result is SessionMissing {
                (self.at(RunStage::Rotating), RunAction::Rotate)
            } else {
                self.ended(result)
            },
        }
    }

    /// The run after a report, and what to do next.
    pub open spec fn next(self, event: RunEvent<Seq<char>>) -> (
        BackendRun<Seq<char>>,
        RunAction<Seq<char>>,
    ) {
        self.next_given(event, reports_in_use(event))
    }

    /// The most reports that a run takes until it ends.
    pub open spec fn reports_left(self) -> nat {
        match self.stage {
            RunStage::Loading => 3,
            RunStage::Creating => 2,
            RunStage::Continuing => 4,
            RunStage::Resuming => 1,
            RunStage::Rotating => 3,
            RunStage::Reloading => 2,
            RunStage::Restarting => 1,
            RunStage::Ended => 0,
        }
    }

    /// The most times that the backend is still run.
    pub open spec fn runs_left(self) -> nat {
        match self.stage {
            RunStage::Loading => 2,
            RunStage::Creating | RunStage::Continuing => 1,
            RunStage::Rotating | RunStage::Reloading => 1,
            RunStage::Resuming | RunStage::Restarting | RunStage::Ended => 0,
        }
    }
}

/// Every report brings a run nearer to its end, and it ends with the last; so it takes no more than
/// four reports.
pub proof fn a_run_ends(run: BackendRun<Seq<char>>, event: RunEvent<Seq<char>>)
    requires
        run.awaits(event),
    ensures
        run.next(event).0.reports_left() < run.reports_left() <= 4,
        run.next(event).0.stage is Ended <==> run.next(event).1 is Finish,
{
}

/// The run after a series of reports.
pub open spec fn run_after(start: BackendRun<Seq<char>>, events: Seq<RunEvent<Seq<char>>>) -> BackendRun<
    Seq<char>,
>
    decreases events.len(),
{
    if events.len() == 0 {
        start
    } else {
        run_after(start, events.drop_last()).next(events.last()).0
    }
}

/// Whether every report of the series is waited for.
pub open spec fn is_series(start: BackendRun<Seq<char>>, events: Seq<RunEvent<Seq<char>>>) -> bool
    decreases events.len(),
{
    events.len() == 0 || is_series(start, events.drop_last()) && run_after(
        start,
        events.drop_last(),
    ).awaits(events.last())
}

/// How often a series of reports made the backend run.
pub open spec fn runs_ordered(
    start: BackendRun<Seq<char>>,
    events: Seq<RunEvent<Seq<char>>>,
) -> nat
    decreases events.len(),
{
    if events.len() == 0 {
        0
    } else {
        runs_ordered(start, events.drop_last()) + (if run_after(start, events.drop_last()).next(
            events.last(),
        ).1 is Run {
            1nat
        } else {
            0
        })
    }
}

/// Every run of the backend uses up one of those that are left.
proof fn runs_are_used_up(start: BackendRun<Seq<char>>, events: Seq<RunEvent<Seq<char>>>)
    requires
        is_series(start, events),
    ensures
        runs_ordered(start, events) + run_after(start, events).runs_left() <= start.runs_left(),
    decreases events.len(),
{
    if events.len() > 0 {
        runs_are_used_up(start, events.drop_last());
    }
}

/// A message goes through the backend at most twice, whatever is reported: the run that starts at
/// once for a known session counts, and those that reports lead to.
pub proof fn a_message_runs_at_most_twice(
    run: BackendRun<Seq<char>>,
    is_new: bool,
    events: Seq<RunEvent<Seq<char>>>,
)
    requires
        is_series(run.first(is_new).0, events),
    ensures
        runs_ordered(run.first(is_new).0, events) + (if run.first(is_new).1 is Run {
            1nat
        } else {
            0
        }) <= 2,
{
    runs_are_used_up(run.first(is_new).0, events);
}

/// A session that is resumed gets the message itself; only a session that is created gets the
/// history of its thread before it. All runs share the work directory and the instructions.
pub proof fn history_goes_to_new_sessions_only(
    run: BackendRun<Seq<char>>,
    is_new: bool,
    event: RunEvent<Seq<char>>,
)
    requires
        run.awaits(event),
    ensures
        run.first(is_new).1 matches RunAction::Run { request, .. } ==> !request.is_new
            && request.prompt == run.text,
        run.next(event).1 matches RunAction::Run { request, .. } ==> {
            &&& request.session_id == run.session
            &&& request.work_dir == run.work_dir
            &&& request.instructions == run.instructions
            &&& !request.is_new ==> request.prompt == run.text
            &&& request.is_new ==> event is HistoryLoaded
        },
        run.next(event).0.text == run.text,
{
}

/// A session that could not be created because it is there already is resumed, and a session that
/// could not be resumed because it is lost is replaced: the second run asks for the other thing.
pub proof fn the_second_run_asks_for_the_other_thing(
    run: BackendRun<Seq<char>>,
    error: Seq<char>,
    fresh: Seq<char>,
    prompt: Seq<char>,
    count: usize,
)
    ensures
        run.stage is Creating && says_in_use(lowercase(error)) ==> run.next(
            RunEvent::Ran(RunResult::Failed(error)),
        ).1 == (RunAction::Run {
            mark_started: false,
            announce: None,
            request: run.request(false, run.text),
        }),
        run.stage is Continuing ==> {
            let lost = run.next(RunEvent::Ran(RunResult::SessionMissing(error)));
            let replaced = lost.0.next(RunEvent::Rotated(fresh));
            let restarted = replaced.0.next(RunEvent::HistoryLoaded { prompt, count });
            &&& lost.1 == RunAction::<Seq<char>>::Rotate
            &&& replaced.1 == RunAction::<Seq<char>>::LoadHistory
            &&& restarted.1 matches RunAction::Run { request, .. } && request.is_new
                && request.session_id == fresh
        },
{
}

impl BackendRun<String> {
    /// Starts to run a message for a session.
    pub fn begin(
        text: String,
        session: String,
        is_new: bool,
        mark_early: bool,
        work_dir: String,
        instructions: String,
    ) -> (begun: (BackendRun<String>, RunAction<String>))
        ensures
            (begun.0@, begun.1@) == (BackendRun {
                text: text@,
                session: session@,
                mark_early,
                work_dir: work_dir@,
                instructions: instructions@,
                stage: RunStage::Loading,
            }).first(is_new),
    {
        let mut run = BackendRun {
            text,
            session,
            mark_early,
            work_dir,
            instructions,
            stage: RunStage::Loading,
        };
        if is_new {
            (run, RunAction::LoadHistory)
        } else {
            run.stage = RunStage::Continuing;
            let request = run.plain_request();
            (run, RunAction::Run { mark_started: false, announce: Some(0), request })
        }
    }

    /// Asks to resume the session with the message itself.
    fn plain_request(&self) -> (request: Request<String>)
        ensures
            request@ == self@.request(false, self@.text),
    {
        backend_request(
            self.session.as_str(),
            false,
            self.work_dir.as_str(),
            self.instructions.as_str(),
            self.text.as_str(),
        )
    }

    fn create(&mut self, stage: RunStage, prompt: &str, count: usize) -> (action: RunAction<String>)
        ensures
            (final(self)@, action@) == old(self)@.creating(stage, prompt@, count),
    {
        self.stage = stage;
        let prompt = if count > 0 {
            prompt
        } else {
            self.text.as_str()
        };
        let request = backend_request(
            self.session.as_str(),
            true,
            self.work_dir.as_str(),
            self.instructions.as_str(),
            prompt,
        );
        RunAction::Run { mark_started: self.mark_early, announce: Some(count), request }
    }

    fn end(&mut self, result: RunResult<String>) -> (action: RunAction<String>)
        ensures
            (final(self)@, action@) == old(self)@.ended(result@),
    {
        self.stage = RunStage::Ended;
        RunAction::Finish(result)
    }

    /// Whether the run waits for a report of this kind.
    pub fn is_awaiting(&self, event: &RunEvent<String>) -> (yes: bool)
        ensures
            yes == self@.awaits(event@),
    {
        match event {
            RunEvent::HistoryLoaded { .. } | RunEvent::HistoryFailed(_) => matches!(
                self.stage,
                RunStage::Loading | RunStage::Reloading
            ),
            RunEvent::Rotated(_) | RunEvent::RotationFailed(_) => matches!(
                self.stage,
                RunStage::Rotating
            ),
            RunEvent::Ran(_) => matches!(
                self.stage,
                RunStage::Creating | RunStage::Continuing | RunStage::Resuming | RunStage::Restarting
            ),
        }
    }

    /// Takes a report, and whether it says that the session is there already, and decides what is
    /// done next.
    pub fn step_given(&mut self, event: RunEvent<String>, in_use: bool) -> (action: RunAction<
        String,
    >)
        requires
            old(self)@.awaits(event@),
        ensures
            (final(self)@, action@) == old(self)@.next_given(event@, in_use),
    {
        match event {
            RunEvent::HistoryLoaded { prompt, count } => {
                if matches!(self.stage, RunStage::Loading) {
                    self.create(RunStage::Creating, prompt.as_str(), count)
                } else {
                    self.create(RunStage::Restarting, prompt.as_str(), count)
                }
            },
            RunEvent::HistoryFailed(error) => {
                let mut message = "load canonical history for rehydration: ".to_owned();
                message.append(error.as_str());
                self.end(RunResult::Failed(message))
            },
            RunEvent::Rotated(session) => {
                self.session = session;
                self.stage = RunStage::Reloading;
                RunAction::LoadHistory
            },
            RunEvent::RotationFailed(error) => {
                let mut message = "rotate missing backend session: ".to_owned();
                message.append(error.as_str());
                self.end(RunResult::Failed(message))
            },
            RunEvent::Ran(result) => {
                let failed = matches!(&result, RunResult::Failed(_));
                let missing = matches!(&result, RunResult::SessionMissing(_));
                if matches!(self.stage, RunStage::Creating) && failed && in_use {
                    self.stage = RunStage::Resuming;
                    let request = self.plain_request();
                    RunAction::Run { mark_started: false, announce: None, request }
                } else if matches!(self.stage, RunStage::Continuing) && missing {
                    self.stage = RunStage::Rotating;
                    RunAction::Rotate
                } else {
                    self.end(result)
                }
            },
        }
    }

    /// Takes a report and decides what is done next.
    pub fn step(&mut self, event: RunEvent<String>) -> (action: RunAction<String>)
        requires
            old(self)@.awaits(event@),
        ensures
            (final(self)@, action@) == old(self)@.next(event@),
    {
        let in_use = match &event {
            RunEvent::Ran(RunResult::Failed(error)) => session_in_use(
                to_lowercase(error.as_str()).as_str(),
            ),
            _ => false,
        };
        self.step_given(event, in_use)
    }
}

} // verus!
