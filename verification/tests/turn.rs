use push_gateway::gateway::commands::{Command, JobCommand};
use push_gateway::gateway::run::RunResult;
use push_gateway::gateway::turn::{
    history_failure_detail, short, AuditEntry, Order, OutboundOrigin, Task, Turn, TurnEvent,
    SESSION_SETUP_FAILURE,
};
use push_gateway::gateway::voice::VoiceResult;

type Step = Order<String, Vec<String>>;

struct Driver {
    turn: Turn<String, Vec<String>>,
    log: Vec<String>,
}

fn text(value: &str) -> String {
    value.to_string()
}

fn show(order: &Step) -> String {
    let audit = match &order.audit {
        Some(AuditEntry::Failed { event, detail }) => format!("audit {event}: {detail}; "),
        Some(AuditEntry::BackendCompleted(reply)) => format!("audit reply {reply}; "),
        None => String::new(),
    };
    let task = match &order.task {
        Task::ReadOutbound => text("read outbound"),
        Task::PrepareVoice => text("prepare voice"),
        Task::RunCommand(Command::Help) => text("help"),
        Task::RunCommand(_) => text("command"),
        Task::RunJobCommand(JobCommand::Run(name)) => format!("run job {name}"),
        Task::RunJobCommand(_) => text("job command"),
        Task::FindRunner => text("find runner"),
        Task::FindSession => text("find session"),
        Task::ResolveWorkDir => text("resolve work dir"),
        Task::PrepareFiles => text("prepare files"),
        Task::LoadIdentity => text("load identity"),
        Task::CheckContext => text("check context"),
        Task::RunBackend { text, session, is_new, work_dir, instructions } => {
            format!("run {text:?} {session} {is_new} {work_dir} {instructions}")
        }
        Task::Record { origin: OutboundOrigin::Gateway, text } => format!("record {text}"),
        Task::Record { origin: OutboundOrigin::Backend, text } => format!("record backend {text}"),
        Task::SaveSession(session) => format!("save {session:?}"),
        Task::Deliver => text("deliver"),
        Task::SendFiles(paths) => format!("send {paths:?}"),
        Task::FinishActivity(answered) => format!("finish {answered}"),
        Task::Complete { reply, reason } => format!("complete {reason} {reply:?}"),
        Task::Stop => text("stop"),
    };
    format!("{audit}{task}")
}

fn start(message: &str, has_voice: bool, has_files: bool) -> Driver {
    let (turn, order) = Turn::begin(text(message), has_voice, has_files);
    assert_eq!(show(&order), "read outbound");
    Driver { turn, log: Vec::new() }
}

impl Driver {
    fn on(&mut self, event: TurnEvent<String>) -> &str {
        assert!(self.turn.is_awaiting(&event));
        let order = self.turn.step(event);
        self.log.push(show(&order));
        self.log.last().unwrap()
    }

    fn ready(&mut self) {
        self.on(TurnEvent::OutboundMissing);
        self.on(TurnEvent::RunnerFound(text("Codex")));
        self.on(TurnEvent::SessionFound { session: text("s1"), is_new: true });
        self.on(TurnEvent::WorkDirFound(text("/work")));
        self.on(TurnEvent::IdentityLoaded(text("soul")));
        assert_eq!(
            self.on(TurnEvent::ContextReady),
            "run \"hello\" s1 true /work soul"
        );
    }
}

#[test]
fn a_plain_message_is_answered_by_the_backend() {
    let mut turn = start("hello", false, false);
    turn.ready();
    let reply = "Done. [[attach: out.md]]";
    assert_eq!(
        turn.on(TurnEvent::BackendRan(RunResult::Replied {
            reply: text(reply),
            session: Some(text("s2")),
        })),
        "audit reply Done. [[attach: out.md]]; record backend Done."
    );
    assert_eq!(turn.on(TurnEvent::Recorded), "save Some(\"s2\")");
    assert_eq!(turn.on(TurnEvent::SessionSaved), "deliver");
    assert_eq!(turn.on(TurnEvent::Delivered), "send [\"out.md\"]");
    assert_eq!(turn.on(TurnEvent::FilesSent), "finish true");
    assert_eq!(turn.on(TurnEvent::ActivityFinished), "complete completed Some(\"Done.\")");
    assert_eq!(turn.on(TurnEvent::RowCompleted), "stop");
}

#[test]
fn a_reply_without_files_is_marked_at_once() {
    let mut turn = start("hello", false, false);
    turn.ready();
    turn.on(TurnEvent::BackendRan(RunResult::Replied { reply: text("ok"), session: None }));
    assert_eq!(turn.on(TurnEvent::Recorded), "save None");
    turn.on(TurnEvent::SessionSaved);
    assert_eq!(turn.on(TurnEvent::Delivered), "finish true");
}

#[test]
fn a_stored_reply_is_delivered_again() {
    let mut turn = start("hello", true, true);
    assert_eq!(turn.on(TurnEvent::OutboundStored(text("old"))), "deliver");
    assert_eq!(
        turn.on(TurnEvent::Delivered),
        "complete recovered_outbound Some(\"old\")"
    );
    assert_eq!(turn.on(TurnEvent::RowCompleted), "stop");

    let mut turn = start("hello", false, false);
    turn.on(TurnEvent::OutboundStored(text("old")));
    assert_eq!(
        turn.on(TurnEvent::DeliveryFailed(text("locked"))),
        "audit message_history_failed: recover outbound: locked; stop"
    );
}

#[test]
fn a_history_that_cannot_be_read_stops_the_turn() {
    let mut turn = start("hello", false, false);
    assert_eq!(
        turn.on(TurnEvent::OutboundFailed(text("locked"))),
        "audit message_history_failed: read outbound: locked; stop"
    );
    assert!(!turn.turn.is_awaiting(&TurnEvent::OutboundMissing));
}

#[test]
fn commands_are_answered_without_a_backend() {
    let mut turn = start(" /help ", false, false);
    assert_eq!(turn.on(TurnEvent::OutboundMissing), "help");
    assert_eq!(turn.on(TurnEvent::CommandAnswered(text("..."))), "record ...");
    assert_eq!(turn.on(TurnEvent::Recorded), "deliver");
    assert_eq!(turn.on(TurnEvent::Delivered), "complete command Some(\"...\")");
    assert_eq!(turn.on(TurnEvent::RowCompleted), "stop");

    let mut turn = start("/run nightly", false, false);
    assert_eq!(turn.on(TurnEvent::OutboundMissing), "run job nightly");
    turn.on(TurnEvent::CommandAnswered(text("ok")));
    assert_eq!(
        turn.on(TurnEvent::RecordFailed(text("locked"))),
        "audit message_history_failed: record job command reply: locked; stop"
    );
}

#[test]
fn the_command_of_a_message_can_be_given() {
    let mut turn = start("hello", false, false);
    assert_eq!(show(&turn.turn.dispatch_given(None)), "find runner");
    let mut turn = start("hello", false, false);
    assert_eq!(show(&turn.turn.dispatch_given(Some(Command::Help))), "help");
    let mut turn = start("/status", false, false);
    assert_eq!(show(&turn.turn.dispatch_given(None)), "job command");
}

#[test]
fn a_voice_message_is_read_as_what_was_said() {
    let mut turn = start("", true, false);
    assert_eq!(turn.on(TurnEvent::OutboundMissing), "prepare voice");
    assert_eq!(
        turn.on(TurnEvent::VoicePrepared(VoiceResult::Transcript(text("/status")))),
        "job command"
    );

    let mut turn = start("", true, false);
    turn.on(TurnEvent::OutboundMissing);
    assert_eq!(
        turn.on(TurnEvent::VoicePrepared(VoiceResult::HistoryFailed(text("locked")))),
        "audit message_history_failed: store voice transcript: locked; stop"
    );

    let mut turn = start("", true, false);
    turn.on(TurnEvent::OutboundMissing);
    assert_eq!(
        turn.on(TurnEvent::VoicePrepared(VoiceResult::Refused {
            event: "voice_too_large",
            reply: "too large",
            detail: text("30 MB"),
        })),
        "audit voice_too_large: 30 MB; record too large"
    );
    turn.on(TurnEvent::Recorded);
    assert_eq!(
        turn.on(TurnEvent::DeliveryFailed(text("locked"))),
        "audit message_history_failed: deliver voice fallback: locked; stop"
    );
}

#[test]
fn a_missing_runner_completes_the_row_without_a_reply() {
    let mut turn = start("hello", false, false);
    assert_eq!(turn.on(TurnEvent::OutboundMissing), "find runner");
    assert_eq!(
        turn.on(TurnEvent::RunnerMissing),
        "audit backend_run_failed: no runner configured; complete missing_runner None"
    );
    assert_eq!(turn.on(TurnEvent::RowCompleted), "stop");
}

#[test]
fn a_failed_setup_is_told_and_completes_the_row() {
    let mut turn = start("hello", false, true);
    turn.on(TurnEvent::OutboundMissing);
    turn.on(TurnEvent::RunnerFound(text("Codex")));
    assert_eq!(
        turn.on(TurnEvent::SessionFound { session: text("s1"), is_new: false }),
        "resolve work dir"
    );
    assert_eq!(
        turn.on(TurnEvent::SetupFailed(text("no such directory"))),
        format!("audit backend_setup_failed: no such directory; record {SESSION_SETUP_FAILURE}")
    );
    assert_eq!(turn.on(TurnEvent::Recorded), "deliver");
    assert!(turn.on(TurnEvent::Delivered).starts_with("complete setup_failed"));
    assert_eq!(turn.on(TurnEvent::RowCompleted), "stop");
}

#[test]
fn the_note_about_files_joins_the_prompt() {
    let mut turn = start("look", false, true);
    turn.on(TurnEvent::OutboundMissing);
    turn.on(TurnEvent::RunnerFound(text("Codex")));
    turn.on(TurnEvent::SessionFound { session: text("s1"), is_new: false });
    assert_eq!(turn.on(TurnEvent::WorkDirFound(text("/w"))), "prepare files");
    assert_eq!(turn.on(TurnEvent::FilesPrepared(text("note"))), "load identity");
    assert_eq!(turn.on(TurnEvent::IdentityLoaded(text("soul"))), "check context");
    assert_eq!(
        turn.on(TurnEvent::ContextReady),
        "run \"look\\n\\nnote\" s1 false /w soul"
    );
}

#[test]
fn a_bad_run_is_marked_as_not_answered() {
    let mut turn = start("hello", false, false);
    turn.ready();
    assert_eq!(
        turn.on(TurnEvent::BackendRan(RunResult::TimedOut)),
        "audit backend_run_failed: Codex run timed out; record That took too long and was stopped. Try again or simplify the request."
    );
    assert_eq!(turn.on(TurnEvent::Recorded), "deliver");
    assert!(turn.on(TurnEvent::Delivered).starts_with("complete timeout"));
    assert_eq!(turn.on(TurnEvent::RowCompleted), "finish false");
    assert_eq!(turn.on(TurnEvent::ActivityFinished), "stop");

    let mut turn = start("hello", false, false);
    turn.ready();
    assert_eq!(
        turn.on(TurnEvent::Interrupted),
        "audit backend_run_interrupted: Codex run interrupted by user; record Stopped the current request."
    );
    turn.on(TurnEvent::Recorded);
    assert_eq!(
        turn.on(TurnEvent::DeliveryFailed(text("locked"))),
        "audit message_history_failed: deliver interrupted reply: locked; finish false"
    );
    assert_eq!(turn.on(TurnEvent::ActivityFinished), "stop");

    let mut turn = start("hello", false, false);
    turn.ready();
    assert_eq!(
        turn.on(TurnEvent::BackendRan(RunResult::Failed(text("run: exit 1: no key")))),
        "audit backend_run_failed: run: exit 1: no key; record ⚠️ no key"
    );
    assert_eq!(
        turn.on(TurnEvent::RecordFailed(text("locked"))),
        "audit message_history_failed: record failure reply: locked; stop"
    );
}

#[test]
fn a_session_that_is_not_saved_leaves_the_row_open() {
    let mut turn = start("hello", false, false);
    turn.ready();
    turn.on(TurnEvent::BackendRan(RunResult::Replied { reply: text("ok"), session: None }));
    turn.on(TurnEvent::Recorded);
    assert_eq!(
        turn.on(TurnEvent::SessionSaveFailed(text("locked"))),
        "audit backend_session_save_failed: locked; stop"
    );
    assert!(turn.log.iter().all(|line| !line.contains("deliver") && !line.contains("complete")));
}

#[test]
fn errors_are_shortened_to_their_last_reason() {
    assert_eq!(short("a: b: c "), "c");
    assert_eq!(short("plain"), "plain");
    assert_eq!(short("a:b"), "a:b");
    assert_eq!(short("call failed: "), "couldn't reach the agent");
    assert_eq!(short(""), "couldn't reach the agent");
    assert_eq!(history_failure_detail("read", "locked"), "read: locked");
}
