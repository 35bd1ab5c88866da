//! What holds of the commands in messages: which texts are one, and what it is given.

use crate::gateway::commands::{
    arguments, command_in, command_of, job_command_of, slash_parts, Command, JobCommand,
    HELP_REPLY,
};
use crate::gateway::reminder_laws::is_word;
use crate::text::{
    ascii_lowered, begins_with, first_space, first_space_is_first, lowercase, trimmed, white_space,
};
use vstd::prelude::*;

verus! {

/// What is handed to a command: nothing where its word stands alone, and what stands behind the
/// space, trimmed, elsewhere. A text in which the word goes on is not that command.
pub proof fn a_command_gets_what_stands_behind_it(word: Seq<char>, rest: Seq<char>, t: Seq<char>)
    ensures
        arguments(word, word) == Some(trimmed(Seq::empty())),
        arguments(word.push(' ') + rest, word) == Some(trimmed(seq![' '] + rest)),
        arguments(t, word) is Some ==> t == word || exists|behind: Seq<char>|
            t == #[trigger] (word.push(' ') + behind),
{
    let n = word.len() as int;
    assert(word.skip(n) =~= Seq::<char>::empty());
    let s = word.push(' ') + rest;
    assert(s.subrange(0, word.push(' ').len() as int) =~= word.push(' '));
    assert(begins_with(s, word.push(' ')));
    assert(s.skip(n) =~= seq![' '] + rest);
    if arguments(t, word) is Some && t != word {
        assert(t =~= word.push(' ') + t.skip(n + 1)) by {
            assert(t.subrange(0, n + 1) == word.push(' '));
            assert(t =~= t.subrange(0, n + 1) + t.skip(n + 1));
        }
    }
}

/// The commands of the gateway: `/reminders` in any case lists; `/reminder` and `/remind`, written
/// small, get what stands behind them; `/clear`, `/new` and `/reset` start afresh, and `/help`
/// helps, in any case. A text that is none of these is no command.
pub proof fn these_are_the_commands(t: Seq<char>, lower: Seq<char>)
    ensures
        ({
            let lists = ascii_lowered(t) == "/reminders"@;
            let about_one = t == "/reminder"@ || begins_with(t, "/reminder "@);
            let reminds = t == "/remind"@ || begins_with(t, "/remind "@);
            let resets = lower == "/clear"@ || lower == "/new"@ || lower == "/reset"@;
            command_in(t, lower) == (if lists {
                Some(Command::ListReminders)
            } else if about_one {
                Some(Command::Reminder(trimmed(t.skip(9))))
            } else if reminds {
                Some(Command::Remind(trimmed(t.skip(7))))
            } else if resets {
                Some(Command::Reset)
            } else if lower == "/help"@ {
                Some(Command::Help)
            } else {
                None
            })
        }),
        ascii_lowered(t) == "/reminders"@ ==> t != "/reminder"@ && !begins_with(t, "/reminder "@)
            && t != "/remind"@ && !begins_with(t, "/remind "@),
        t == "/reminder"@ || begins_with(t, "/reminder "@) ==> t != "/remind"@ && !begins_with(
            t,
            "/remind "@,
        ),
{
    reveal_strlit("/reminders");
    reveal_strlit("/reminder");
    reveal_strlit("/reminder ");
    reveal_strlit("/remind");
    reveal_strlit("/remind ");
    assert(ascii_lowered("/reminders"@) =~= "/reminders"@);
    assert("/reminder"@.push(' ') =~= "/reminder "@);
    assert("/remind"@.push(' ') =~= "/remind "@);
    if ascii_lowered(t) == "/reminders"@ {
        assert(ascii_lowered(t)[7] == 'e');
        assert(ascii_lowered(t)[9] == 's');
        assert(t.len() == 10);
        if begins_with(t, "/reminder "@) {
            assert(t.subrange(0, 10)[9] == ' ');
        }
        if begins_with(t, "/remind "@) {
            assert(t.subrange(0, 8)[7] == ' ');
        }
    }
    if begins_with(t, "/reminder "@) {
        assert(t.subrange(0, 10)[7] == 'e');
        if begins_with(t, "/remind "@) {
            assert(t.subrange(0, 8)[7] == ' ');
        }
    }
}

/// A command is looked for in the trimmed message, whose lower case tells those that may be written
/// in any case.
pub proof fn white_space_around_a_command_does_not_matter(text: Seq<char>, other: Seq<char>)
    requires
        trimmed(text) == trimmed(other),
    ensures
        command_of(text) == command_in(trimmed(text), lowercase(trimmed(text))),
        command_of(text) == command_of(other),
        job_command_of(text) == job_command_of(other),
{
}

/// A slash command is its first word, which starts with the slash, and what stands behind it,
/// trimmed; a message that starts with anything else is none.
pub proof fn a_slash_command_is_its_first_word(
    text: Seq<char>,
    name: Seq<char>,
    space: char,
    rest: Seq<char>,
)
    requires
        is_word(name),
        white_space(space),
    ensures
        trimmed(text) == name.push(space) + rest && name.len() > 0 && name[0] == '/' ==> slash_parts(
            text,
        ) == Some((name, trimmed(rest))),
        trimmed(text) == name && name.len() > 0 && name[0] == '/' ==> slash_parts(text) == Some(
            (name, Seq::<char>::empty()),
        ),
        trimmed(text).len() == 0 || trimmed(text)[0] != '/' ==> slash_parts(text) is None,
{
    let t = trimmed(text);
    let n = name.len() as int;
    if t == name.push(space) + rest {
        first_space_is_first(t, 0);
        assert(t[n] == space);
        assert(forall|i: int| 0 <= i < n ==> t[i] == name[i]);
        let at = first_space(t, 0);
        assert(at == n) by {
            if at < n {
                assert(white_space(t[at]));
            }
        }
        assert(t.take(n) =~= name);
        assert(t.skip(n + 1) =~= rest);
    }
    if t == name {
        first_space_is_first(t, 0);
    }
}

/// The commands about jobs, in any case: `/jobs` lists them, `/run` runs the one that is named
/// behind it, and `/status` reports. Any other slash command is none of them.
pub proof fn these_are_the_job_commands(text: Seq<char>)
    ensures
        slash_parts(text) is None ==> job_command_of(text) is None,
        slash_parts(text) matches Some((name, arg)) ==> {
            let lower = ascii_lowered(name);
            job_command_of(text) == (if lower == "/jobs"@ {
                Some(JobCommand::Jobs)
            } else if lower == "/run"@ {
                Some(JobCommand::Run(arg))
            } else if lower == "/status"@ {
                Some(JobCommand::Status)
            } else {
                None
            })
        },
{
    reveal_strlit("/jobs");
    reveal_strlit("/run");
    reveal_strlit("/status");
    assert(ascii_lowered("/jobs"@) =~= "/jobs"@);
    assert(ascii_lowered("/run"@) =~= "/run"@);
    assert(ascii_lowered("/status"@) =~= "/status"@);
}

/// What `/help` says.
pub proof fn help_names_every_command()
    ensures
        HELP_REPLY
            == "Commands:\n/clear - start a fresh conversation\n/stop - stop the active request\n/jobs - list configured jobs\n/run <name> - run a job now\n/status - recent job runs\n/remind <when> <message> - remind you later (2h, 15:00, or daily 09:00)\n/reminders - list pending reminders\n/reminder cancel <id> - cancel a reminder\n/help - this message",
{
}

} // verus!
