//! Slash commands that the gateway answers before anything reaches the agent.

use crate::text::{
    ascii_lowered, begins_with, chars_of, find_space, first_space, first_space_is_first, lowercase,
    same, same_ignoring_ascii_case, strip_prefix, to_lowercase, trim, trim_end_is_prefix,
    trim_is_idempotent, trim_start_is_suffix, trimmed, trimmed_is_what_white_space_surrounds,
    white_space,
};
use vstd::prelude::*;

verus! {

/// A command that the gateway carries out itself. The text type `S` is `String` in the program and
/// a sequence of characters in contracts.
#[derive(Debug)]
pub enum Command<S> {
    /// `/reminders`
    ListReminders,
    /// `/reminder <args>`
    Reminder(S),
    /// `/remind <args>`
    Remind(S),
    /// `/clear`, `/new`, `/reset`
    Reset,
    /// `/help`
    Help,
}

impl View for Command<String> {
    type V = Command<Seq<char>>;

    open spec fn view(&self) -> Command<Seq<char>> {
        match self {
            Command::ListReminders => Command::ListReminders,
            Command::Reminder(args) => Command::Reminder(args@),
            Command::Remind(args) => Command::Remind(args@),
            Command::Reset => Command::Reset,
            Command::Help => Command::Help,
        }
    }
}

/// A command about the configured jobs.
#[derive(Debug)]
pub enum JobCommand<S> {
    /// `/jobs`
    Jobs,
    /// `/run <name>`
    Run(S),
    /// `/status`
    Status,
}

impl View for JobCommand<String> {
    type V = JobCommand<Seq<char>>;

    open spec fn view(&self) -> JobCommand<Seq<char>> {
        match self {
            JobCommand::Jobs => JobCommand::Jobs,
            JobCommand::Run(name) => JobCommand::Run(name@),
            JobCommand::Status => JobCommand::Status,
        }
    }
}

/// What a command that takes arguments was given: the trimmed rest behind the word, which stands
/// alone or before a space.
pub open spec fn arguments(t: Seq<char>, word: Seq<char>) -> Option<Seq<char>> {
    if t == word || begins_with(t, word.push(' ')) {
        Some(trimmed(t.skip(word.len() as int)))
    } else {
        None
    }
}

/// The command that a trimmed text holds, given the text in lower case. Reminder commands are read
/// from the text itself, so that messages keep their case.
pub open spec fn command_in(t: Seq<char>, lower: Seq<char>) -> Option<Command<Seq<char>>> {
    if ascii_lowered(t) == ascii_lowered("/reminders"@) {
        Some(Command::ListReminders)
    } else if arguments(t, "/reminder"@) is Some {
        Some(Command::Reminder(arguments(t, "/reminder"@)->0))
    } else if arguments(t, "/remind"@) is Some {
        Some(Command::Remind(arguments(t, "/remind"@)->0))
    } else if lower == "/clear"@ || lower == "/new"@ || lower == "/reset"@ {
        Some(Command::Reset)
    } else if lower == "/help"@ {
        Some(Command::Help)
    } else {
        None
    }
}

/// The command that a message holds.
pub open spec fn command_of(text: Seq<char>) -> Option<Command<Seq<char>>> {
    command_in(trimmed(text), lowercase(trimmed(text)))
}

/// The view of an optional command.
pub open spec fn command_view(command: Option<Command<String>>) -> Option<Command<Seq<char>>> {
    match command {
        Some(c) => Some(c@),
        None => None,
    }
}

/// The view of an optional job command.
pub open spec fn job_command_view(command: Option<JobCommand<String>>) -> Option<
    JobCommand<Seq<char>>,
> {
    match command {
        Some(c) => Some(c@),
        None => None,
    }
}

/// Reads the arguments of a command.
fn read_arguments(text: &str, word: &str, word_and_space: &str) -> (args: Option<String>)
    requires
        word_and_space@ == word@.push(' '),
    ensures
        args is Some <==> arguments(text@, word@) is Some,
        args matches Some(a) ==> a@ == arguments(text@, word@)->0,
{
    if same(text, word) {
        assert(text@.skip(word@.len() as int) =~= Seq::empty());
        return Some(String::new());
    }
    match strip_prefix(text, word_and_space) {
        Some(rest) => {
            let ghost behind = text@.skip(word@.len() as int);
            assert(behind[0] == (word_and_space@ + rest@)[word@.len() as int]);
            assert(behind.skip(1) =~= rest@);
            Some(trim(rest).to_owned())
        },
        None => None,
    }
}

/// Finds the command in a trimmed text, given the text in lower case.
pub fn find_command(text: &str, lower: &str) -> (command: Option<Command<String>>)
    ensures
        command_view(command) == command_in(text@, lower@),
{
    proof {
        reveal_strlit("/reminder");
        reveal_strlit("/reminder ");
        reveal_strlit("/remind");
        reveal_strlit("/remind ");
        assert("/reminder "@ =~= "/reminder"@.push(' '));
        assert("/remind "@ =~= "/remind"@.push(' '));
    }
    if same_ignoring_ascii_case(text, "/reminders") {
        return Some(Command::ListReminders);
    }
    if let Some(args) = read_arguments(text, "/reminder", "/reminder ") {
        return Some(Command::Reminder(args));
    }
    if let Some(args) = read_arguments(text, "/remind", "/remind ") {
        return Some(Command::Remind(args));
    }
    if same(lower, "/clear") || same(lower, "/new") || same(lower, "/reset") {
        Some(Command::Reset)
    } else if same(lower, "/help") {
        Some(Command::Help)
    } else {
        None
    }
}

/// Finds the gateway command in a message.
pub fn command(text: &str) -> (command: Option<Command<String>>)
    ensures
        command_view(command) == command_of(text@),
{
    let inner = trim(text);
    let lower = to_lowercase(inner);
    find_command(inner, lower.as_str())
}

/// A reminder keeps the case of its words: what stands behind `/remind` is handed on as it is, but
/// for the white space around it.
pub proof fn a_reminder_keeps_its_words(args: Seq<char>)
    ensures
        command_of("/remind "@ + args) == Some(Command::Remind(trimmed(args))),
{
    let text = "/remind "@ + args;
    reveal_strlit("/remind ");
    reveal_strlit("/remind");
    reveal_strlit("/reminder");
    reveal_strlit("/reminders");
    let p = trim_start_is_suffix(args);
    let rest = args.skip(p);
    let n = trim_end_is_prefix(rest);
    let q = p + n;
    assert(rest.take(n) =~= args.subrange(p, q));
    assert forall|i: int| q <= i < args.len() implies white_space(#[trigger] args[i]) by {
        assert(rest[i - p] == args[i]);
    }
    if n > 0 {
        assert(rest[n - 1] == args[q - 1]);
        assert(text[8 + q - 1] == args[q - 1]);
    }
    let end = if n > 0 {
        8 + q
    } else {
        7
    };
    assert forall|i: int| end <= i < text.len() implies white_space(#[trigger] text[i]) by {
        if i >= 8 {
            assert(text[i] == args[i - 8]);
            if n == 0 && i - 8 < p {
                assert(white_space(args[i - 8]));
            }
        }
    }
    trimmed_is_what_white_space_surrounds(text, 0, end);
    let t = trimmed(text);
    assert(t == text.subrange(0, end));
    assert(t[6] == 'd');
    if n > 0 {
        assert(t[7] == ' ');
        assert(ascii_lowered(t)[7] != ascii_lowered("/reminders"@)[7]);
        assert("/reminder"@[7] == 'e');
        assert("/reminder"@.push(' ')[7] == 'e');
        assert(t.take(8) =~= "/remind"@.push(' '));
        let behind = t.skip(7);
        assert(behind[0] == ' ');
        assert forall|i: int| 0 <= i < 1 + p implies white_space(#[trigger] behind[i]) by {
            if i > 0 {
                assert(behind[i] == args[i - 1]);
            }
        }
        assert(behind[1 + p] == args[p]);
        assert(behind[1 + q - 1] == args[q - 1]);
        trimmed_is_what_white_space_surrounds(behind, 1 + p, 1 + q);
        assert(behind.subrange(1 + p, 1 + q) =~= args.subrange(p, q));
    } else {
        assert(t =~= "/remind"@);
        assert(ascii_lowered(t).len() != ascii_lowered("/reminders"@).len());
        assert(t.skip(7) =~= Seq::<char>::empty());
        assert(trimmed(Seq::<char>::empty()) =~= Seq::<char>::empty());
        assert(trimmed(args) =~= Seq::<char>::empty());
    }
}

/// A slash command as its name and its trimmed argument; nothing where the text is no command.
pub open spec fn slash_parts(text: Seq<char>) -> Option<(Seq<char>, Seq<char>)> {
    let t = trimmed(text);
    let end = first_space(t, 0);
    if t.len() == 0 || t[0] != '/' {
        None
    } else if end >= t.len() {
        Some((t, Seq::empty()))
    } else {
        Some((t.take(end), trimmed(t.skip(end + 1))))
    }
}

/// Splits a slash command into its name and trimmed argument, or None when the text is not a
/// command.
pub fn parse_slash<'a>(text: &'a str) -> (parts: Option<(&'a str, &'a str)>)
    ensures
        match parts {
            Some((name, arg)) => slash_parts(text@) == Some((name@, arg@)),
            None => slash_parts(text@) is None,
        },
{
    let inner = trim(text);
    let chars = chars_of(inner);
    if chars.len() == 0 || chars[0] != '/' {
        return None;
    }
    let end = find_space(&chars, 0);
    if end == chars.len() {
        proof {
            reveal_strlit("");
            assert(""@ =~= Seq::<char>::empty());
        }
        Some((inner, ""))
    } else {
        assert(inner@.subrange(0, end as int) == inner@.take(end as int));
        assert(inner@.subrange(end + 1, inner@.len() as int) == inner@.skip(end + 1));
        Some((inner.substring_char(0, end), trim(inner.substring_char(end + 1, chars.len()))))
    }
}

/// The name of a slash command starts with the slash and holds no white space; its argument has
/// none at either end.
pub proof fn slash_parts_are_clean(text: Seq<char>)
    ensures
        slash_parts(text) matches Some((name, arg)) ==> name.len() > 0 && name[0] == '/' && (
        forall|i: int| 0 <= i < name.len() ==> !white_space(#[trigger] name[i])) && trimmed(arg)
            == arg,
{
    let t = trimmed(text);
    first_space_is_first(t, 0);
    let end = first_space(t, 0);
    if t.len() > 0 && t[0] == '/' {
        if end < t.len() {
            assert(end > 0);
            trim_is_idempotent(t.skip(end + 1));
        }
    }
}

/// The job command that a message holds.
pub open spec fn job_command_of(text: Seq<char>) -> Option<JobCommand<Seq<char>>> {
    match slash_parts(text) {
        Some((name, arg)) => if ascii_lowered(name) == ascii_lowered("/jobs"@) {
            Some(JobCommand::Jobs)
        } else if ascii_lowered(name) == ascii_lowered("/run"@) {
            Some(JobCommand::Run(arg))
        } else if ascii_lowered(name) == ascii_lowered("/status"@) {
            Some(JobCommand::Status)
        } else {
            None
        },
        None => None,
    }
}

/// Finds the job-management command in a message.
pub fn job_command(text: &str) -> (command: Option<JobCommand<String>>)
    ensures
        job_command_view(command) == job_command_of(text@),
{
    match parse_slash(text) {
        Some((name, arg)) => {
            if same_ignoring_ascii_case(name, "/jobs") {
                Some(JobCommand::Jobs)
            } else if same_ignoring_ascii_case(name, "/run") {
                Some(JobCommand::Run(arg.to_owned()))
            } else if same_ignoring_ascii_case(name, "/status") {
                Some(JobCommand::Status)
            } else {
                None
            }
        },
        None => None,
    }
}

/// Replies to `/help`.
pub const HELP_REPLY: &'static str =
    "Commands:\n/clear - start a fresh conversation\n/stop - stop the active request\n/jobs - list configured jobs\n/run <name> - run a job now\n/status - recent job runs\n/remind <when> <message> - remind you later (2h, 15:00, or daily 09:00)\n/reminders - list pending reminders\n/reminder cancel <id> - cancel a reminder\n/help - this message";

/// Replies to `/clear`, `/new` and `/reset`, given whether the session was replaced.
pub fn reset_reply(done: bool) -> (reply: &'static str)
    ensures
        reply@ == (if done {
            "Started a fresh conversation."@
        } else {
            "Couldn't reset the conversation."@
        }),
{
    if done {
        "Started a fresh conversation."
    } else {
        "Couldn't reset the conversation."
    }
}

} // verus!
