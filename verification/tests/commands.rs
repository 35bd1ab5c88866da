use push_gateway::gateway::commands::{
    command, find_command, job_command, parse_slash, reset_reply, Command, JobCommand, HELP_REPLY,
};

fn name(text: &str) -> String {
    match command(text) {
        Some(Command::ListReminders) => "list".to_string(),
        Some(Command::Reminder(args)) => format!("reminder({args})"),
        Some(Command::Remind(args)) => format!("remind({args})"),
        Some(Command::Reset) => "reset".to_string(),
        Some(Command::Help) => "help".to_string(),
        None => "none".to_string(),
    }
}

fn job_name(text: &str) -> String {
    match job_command(text) {
        Some(JobCommand::Jobs) => "jobs".to_string(),
        Some(JobCommand::Run(arg)) => format!("run({arg})"),
        Some(JobCommand::Status) => "status".to_string(),
        None => "none".to_string(),
    }
}

#[test]
fn parse_slash_splits_name_and_argument() {
    assert_eq!(parse_slash("/jobs"), Some(("/jobs", "")));
    assert_eq!(parse_slash("  /run  cve-check  "), Some(("/run", "cve-check")));
    assert_eq!(parse_slash("/run a b"), Some(("/run", "a b")));
    assert_eq!(parse_slash("hello"), None);
    assert_eq!(parse_slash(""), None);
}

#[test]
fn gateway_commands_are_told_apart() {
    assert_eq!(name(" /ReMinders "), "list");
    assert_eq!(name("/reminder"), "reminder()");
    assert_eq!(name("/reminder cancel 3"), "reminder(cancel 3)");
    assert_eq!(name("/remind  2h Tea TIME"), "remind(2h Tea TIME)");
    assert_eq!(name("/remind\t2h tea"), "none");
    assert_eq!(name("/REMIND 2h tea"), "none");
    assert_eq!(name("/Clear"), "reset");
    assert_eq!(name("/new"), "reset");
    assert_eq!(name("/RESET"), "reset");
    assert_eq!(name("/clear now"), "none");
    assert_eq!(name("/help"), "help");
    assert_eq!(name("hello"), "none");
}

#[test]
fn the_lower_case_of_a_text_can_be_given() {
    assert!(matches!(find_command("/whatever", "/help"), Some(Command::Help)));
    assert!(find_command("/help", "/whatever").is_none());
}

#[test]
fn job_commands_are_told_apart() {
    assert_eq!(job_name("/JOBS"), "jobs");
    assert_eq!(job_name("/run nightly build"), "run(nightly build)");
    assert_eq!(job_name("/run"), "run()");
    assert_eq!(job_name(" /status\n"), "status");
    assert_eq!(job_name("/runs"), "none");
    assert_eq!(job_name("run"), "none");
}

#[test]
fn fixed_replies() {
    assert_eq!(reset_reply(true), "Started a fresh conversation.");
    assert_eq!(reset_reply(false), "Couldn't reset the conversation.");
    assert!(HELP_REPLY.starts_with("Commands:\n/clear - start a fresh conversation\n"));
    assert_eq!(HELP_REPLY.lines().count(), 10);
}
