use push_gateway::gateway::run::{
    session_in_use, BackendRun, RunAction, RunEvent, RunResult,
};

fn text(value: &str) -> String {
    value.to_string()
}

fn begin(is_new: bool, mark_early: bool) -> (BackendRun<String>, String) {
    let (run, action) = BackendRun::begin(
        text("hello"),
        text("s1"),
        is_new,
        mark_early,
        text("/work"),
        text("soul"),
    );
    let shown = show(&action);
    (run, shown)
}

fn show(action: &RunAction<String>) -> String {
    match action {
        RunAction::LoadHistory => text("load"),
        RunAction::Run { mark_started, announce, request } => format!(
            "run {} new={} {:?} in {} as {} mark={mark_started} announce={announce:?}",
            request.session_id, request.is_new, request.prompt, request.work_dir, request.instructions
        ),
        RunAction::Rotate => text("rotate"),
        RunAction::Finish(RunResult::Replied { reply, session }) => format!("replied {reply} {session:?}"),
        RunAction::Finish(RunResult::TimedOut) => text("timed out"),
        RunAction::Finish(RunResult::Failed(error)) => format!("failed {error}"),
        RunAction::Finish(RunResult::SessionMissing(error)) => format!("missing {error}"),
    }
}

fn on(run: &mut BackendRun<String>, event: RunEvent<String>) -> String {
    assert!(run.is_awaiting(&event));
    show(&run.step(event))
}

#[test]
fn a_new_session_starts_with_the_history() {
    let (mut run, first) = begin(true, true);
    assert_eq!(first, "load");
    assert_eq!(
        on(&mut run, RunEvent::HistoryLoaded { prompt: text("context"), count: 3 }),
        "run s1 new=true \"context\" in /work as soul mark=true announce=Some(3)"
    );
    assert_eq!(
        on(&mut run, RunEvent::Ran(RunResult::Replied { reply: text("ok"), session: None })),
        "replied ok None"
    );
    assert!(!run.is_awaiting(&RunEvent::Ran(RunResult::TimedOut)));
}

#[test]
fn an_empty_history_leaves_the_message_alone() {
    let (mut run, _) = begin(true, false);
    assert_eq!(
        on(&mut run, RunEvent::HistoryLoaded { prompt: text("context"), count: 0 }),
        "run s1 new=true \"hello\" in /work as soul mark=false announce=Some(0)"
    );
    assert_eq!(on(&mut run, RunEvent::Ran(RunResult::TimedOut)), "timed out");
}

#[test]
fn a_session_that_is_there_already_is_resumed() {
    let (mut run, _) = begin(true, true);
    on(&mut run, RunEvent::HistoryLoaded { prompt: text("context"), count: 3 });
    assert_eq!(
        on(&mut run, RunEvent::Ran(RunResult::Failed(text("id ALREADY in Use")))),
        "run s1 new=false \"hello\" in /work as soul mark=false announce=None"
    );
    assert_eq!(
        on(&mut run, RunEvent::Ran(RunResult::Failed(text("already in use")))),
        "failed already in use"
    );
}

#[test]
fn another_failure_of_a_new_session_is_final() {
    let (mut run, _) = begin(true, true);
    on(&mut run, RunEvent::HistoryLoaded { prompt: text("context"), count: 3 });
    assert_eq!(on(&mut run, RunEvent::Ran(RunResult::Failed(text("boom")))), "failed boom");
    let (mut run, _) = begin(true, true);
    on(&mut run, RunEvent::HistoryLoaded { prompt: text("context"), count: 3 });
    assert_eq!(
        on(&mut run, RunEvent::Ran(RunResult::SessionMissing(text("gone")))),
        "missing gone"
    );
}

#[test]
fn a_lost_session_is_replaced() {
    let (mut run, first) = begin(false, true);
    assert_eq!(
        first,
        "run s1 new=false \"hello\" in /work as soul mark=false announce=Some(0)"
    );
    assert_eq!(on(&mut run, RunEvent::Ran(RunResult::SessionMissing(text("gone")))), "rotate");
    assert_eq!(on(&mut run, RunEvent::Rotated(text("s2"))), "load");
    assert_eq!(
        on(&mut run, RunEvent::HistoryLoaded { prompt: text("context"), count: 2 }),
        "run s2 new=true \"context\" in /work as soul mark=true announce=Some(2)"
    );
    assert_eq!(
        on(&mut run, RunEvent::Ran(RunResult::SessionMissing(text("again")))),
        "missing again"
    );
}

#[test]
fn a_known_session_that_is_in_use_fails() {
    let (mut run, _) = begin(false, true);
    assert_eq!(
        on(&mut run, RunEvent::Ran(RunResult::Failed(text("already in use")))),
        "failed already in use"
    );
}

#[test]
fn recovery_can_fail() {
    let (mut run, _) = begin(true, true);
    assert_eq!(
        on(&mut run, RunEvent::HistoryFailed(text("locked"))),
        "failed load canonical history for rehydration: locked"
    );
    let (mut run, _) = begin(false, true);
    on(&mut run, RunEvent::Ran(RunResult::SessionMissing(text("gone"))));
    assert_eq!(
        on(&mut run, RunEvent::RotationFailed(text("locked"))),
        "failed rotate missing backend session: locked"
    );
}

#[test]
fn whether_a_session_is_in_use_can_be_given() {
    let (mut run, _) = begin(true, true);
    on(&mut run, RunEvent::HistoryLoaded { prompt: text("context"), count: 3 });
    let action = run.step_given(RunEvent::Ran(RunResult::Failed(text("boom"))), true);
    assert!(matches!(action, RunAction::Run { .. }));
    assert!(session_in_use("the id is already in use."));
    assert!(!session_in_use("already used"));
}
