//! Replies to the commands about configured jobs and their runs.

use crate::gateway::clock::DAY_MS;
use crate::number::{decimal, write_unsigned};
use crate::text::{
    comes_before, is_before, join, joined, same, text_order_carries_over, texts, texts_are_ordered,
};
use vstd::prelude::*;

verus! {

/// A run of a job, as the run history tells it.
#[derive(Debug)]
pub struct RunRow {
    pub job_name: String,
    pub state: String,
    pub queued_at_ms: i64,
}

/// How many of the latest runs are listed.
pub const LISTED_RUNS: usize = 8;

/// A sign for the state of a run.
pub open spec fn icon_of(state: Seq<char>) -> Seq<char> {
    if state == "succeeded"@ {
        "✅"@
    } else if state == "failed"@ || state == "timed_out"@ {
        "⚠️"@
    } else if state == "running"@ {
        "⏳"@
    } else if state == "queued"@ {
        "•"@
    } else {
        "◦"@
    }
}

/// Gives a sign for the state of a run.
pub fn state_icon(state: &str) -> (icon: &'static str)
    ensures
        icon@ == icon_of(state@),
{
    if same(state, "succeeded") {
        "✅"
    } else if same(state, "failed") || same(state, "timed_out") {
        "⚠️"
    } else if same(state, "running") {
        "⏳"
    } else if same(state, "queued") {
        "•"
    } else {
        "◦"
    }
}

/// How long ago something was, in the largest unit that fits; what lies ahead counts as now.
pub open spec fn time_ago(ms_ago: int) -> Seq<char> {
    let seconds = if ms_ago < 0 {
        0
    } else {
        ms_ago / 1000
    };
    if seconds < 60 {
        decimal(seconds as nat) + "s ago"@
    } else if seconds < 3600 {
        decimal((seconds / 60) as nat) + "m ago"@
    } else if seconds < 86_400 {
        decimal((seconds / 3600) as nat) + "h ago"@
    } else {
        decimal((seconds / 86_400) as nat) + "d ago"@
    }
}

/// Says how long ago something was.
pub fn relative_time(ms_ago: i64) -> (text: String)
    ensures
        text@ == time_ago(ms_ago as int),
{
    let seconds: u64 = if ms_ago < 0 {
        0
    } else {
        (ms_ago as u64) / 1000
    };
    let (count, unit): (u64, &'static str) = if seconds < 60 {
        (seconds, "s ago")
    } else if seconds < 3600 {
        (seconds / 60, "m ago")
    } else if seconds < 86_400 {
        (seconds / 3600, "h ago")
    } else {
        (seconds / 86_400, "d ago")
    };
    let mut text = write_unsigned(count);
    text.append(unit);
    text
}

/// Whether a run ended well.
pub open spec fn succeeded(run: RunRow) -> bool {
    run.state@ == "succeeded"@
}

/// Whether a run ended badly.
pub open spec fn went_wrong(run: RunRow) -> bool {
    run.state@ == "failed"@ || run.state@ == "timed_out"@
}

/// How many of the first `n` runs were queued at or after a time, and ended well or badly.
pub open spec fn count_since(runs: Seq<RunRow>, since: int, well: bool, n: int) -> nat
    decreases n,
{
    if n <= 0 {
        0
    } else {
        let run = runs[n - 1];
        let counts = run.queued_at_ms >= since && (if well {
            succeeded(run)
        } else {
            went_wrong(run)
        });
        count_since(runs, since, well, n - 1) + (if counts {
            1nat
        } else {
            0
        })
    }
}

/// What stands behind the first `n` runs does not matter to their count.
proof fn count_of_prefix(runs: Seq<RunRow>, run: RunRow, since: int, well: bool, n: int)
    requires
        0 <= n <= runs.len(),
    ensures
        count_since(runs.push(run), since, well, n) == count_since(runs, since, well, n),
    decreases n,
{
    if n > 0 {
        count_of_prefix(runs, run, since, well, n - 1);
        assert(runs.push(run)[n - 1] == runs[n - 1]);
    }
}

/// A run that was queued more than a day ago does not count.
pub proof fn only_the_last_day_counts(runs: Seq<RunRow>, run: RunRow, now_ms: int, well: bool)
    requires
        run.queued_at_ms < now_ms - DAY_MS,
    ensures
        count_since(runs.push(run), now_ms - DAY_MS, well, runs.len() as int + 1) == count_since(
            runs,
            now_ms - DAY_MS,
            well,
            runs.len() as int,
        ),
{
    count_of_prefix(runs, run, now_ms - DAY_MS, well, runs.len() as int);
    assert(runs.push(run)[runs.len() as int] == run);
}

/// The line about a run.
pub open spec fn run_line(run: RunRow, now_ms: int) -> Seq<char> {
    icon_of(run.state@) + " "@ + run.job_name@ + " — "@ + run.state@ + " ("@ + time_ago(
        now_ms - run.queued_at_ms,
    ) + ")"@
}

/// The lines about the first `n` runs.
pub open spec fn run_lines(runs: Seq<RunRow>, now_ms: int, n: int) -> Seq<Seq<char>> {
    Seq::new(n as nat, |i: int| run_line(runs[i], now_ms))
}

/// The line that counts the runs of the last day.
pub open spec fn summary_line(runs: Seq<RunRow>, now_ms: int) -> Seq<char> {
    let since = now_ms - DAY_MS;
    "Last 24h: "@ + decimal(count_since(runs, since, true, runs.len() as int)) + " ok, "@ + decimal(
        count_since(runs, since, false, runs.len() as int),
    ) + " failed"@
}

/// How many runs are listed.
pub open spec fn listed(runs: Seq<RunRow>) -> int {
    if runs.len() < LISTED_RUNS {
        runs.len() as int
    } else {
        LISTED_RUNS as int
    }
}

/// The report on recent runs.
pub open spec fn status_of(runs: Seq<RunRow>, now_ms: int) -> Seq<char> {
    if runs.len() == 0 {
        "No job runs yet."@
    } else {
        joined(
            seq![summary_line(runs, now_ms), "Recent runs:"@] + run_lines(
                runs,
                now_ms,
                listed(runs),
            ),
            "\n"@,
        )
    }
}

/// Whether the times of a report can be computed: the day before now, and the age of every run
/// that is listed.
pub open spec fn times_fit(runs: Seq<RunRow>, now_ms: int) -> bool {
    runs.len() > 0 ==> {
        &&& now_ms - DAY_MS >= i64::MIN
        &&& forall|i: int|
            0 <= i < listed(runs) ==> i64::MIN <= now_ms - (#[trigger] runs[i]).queued_at_ms
                <= i64::MAX
    }
}

/// Tells whether the times of a report can be computed.
pub fn status_times_fit(runs: &[RunRow], now_ms: i64) -> (yes: bool)
    ensures
        yes == times_fit(runs@, now_ms as int),
{
    if runs.len() == 0 {
        return true;
    }
    if now_ms.checked_sub(DAY_MS).is_none() {
        return false;
    }
    let mut i: usize = 0;
    while i < runs.len() && i < LISTED_RUNS
        invariant
            i <= listed(runs@),
            runs@.len() > 0,
            forall|j: int|
                0 <= j < i ==> i64::MIN <= now_ms - (#[trigger] runs@[j]).queued_at_ms <= i64::MAX,
        decreases runs@.len() - i,
    {
        if now_ms.checked_sub(runs[i].queued_at_ms).is_none() {
            assert(!(i64::MIN <= now_ms - runs@[i as int].queued_at_ms <= i64::MAX));
            return false;
        }
        i = i + 1;
    }
    true
}

/// Writes the line about a run.
fn write_run_line(run: &RunRow, now_ms: i64) -> (line: String)
    requires
        i64::MIN <= now_ms - run.queued_at_ms <= i64::MAX,
    ensures
        line@ == run_line(*run, now_ms as int),
{
    let mut line = state_icon(run.state.as_str()).to_owned();
    line.append(" ");
    line.append(run.job_name.as_str());
    line.append(" — ");
    line.append(run.state.as_str());
    line.append(" (");
    line.append(relative_time(now_ms - run.queued_at_ms).as_str());
    line.append(")");
    line
}

/// Reports on recent runs: how many ended well and badly in the last day, and the latest ones.
pub fn format_status(runs: &[RunRow], now_ms: i64) -> (text: String)
    requires
        times_fit(runs@, now_ms as int),
    ensures
        text@ == status_of(runs@, now_ms as int),
{
    if runs.len() == 0 {
        return "No job runs yet.".to_owned();
    }
    let day_ago: i64 = now_ms - DAY_MS;
    let mut ok: u64 = 0;
    let mut failed: u64 = 0;
    let mut i: usize = 0;
    while i < runs.len()
        invariant
            i <= runs@.len(),
            day_ago == now_ms - DAY_MS,
            ok == count_since(runs@, day_ago as int, true, i as int),
            failed == count_since(runs@, day_ago as int, false, i as int),
            ok <= i,
            failed <= i,
        decreases runs@.len() - i,
    {
        let run = &runs[i];
        if run.queued_at_ms >= day_ago {
            let state = run.state.as_str();
            if same(state, "succeeded") {
                ok = ok + 1;
                proof {
                    reveal_strlit("succeeded");
                    reveal_strlit("failed");
                    reveal_strlit("timed_out");
                    assert("succeeded"@[0] == 's');
                    assert("failed"@[0] == 'f');
                    assert("timed_out"@[0] == 't');
                }
            } else if same(state, "failed") || same(state, "timed_out") {
                failed = failed + 1;
            }
        }
        i = i + 1;
    }
    let mut summary = "Last 24h: ".to_owned();
    summary.append(write_unsigned(ok).as_str());
    summary.append(" ok, ");
    summary.append(write_unsigned(failed).as_str());
    summary.append(" failed");
    let ghost head = seq![summary@, "Recent runs:"@];
    let mut lines: Vec<String> = Vec::new();
    lines.push(summary);
    lines.push("Recent runs:".to_owned());
    let mut j: usize = 0;
    assert(texts(lines@) =~= head + run_lines(runs@, now_ms as int, 0));
    while j < runs.len() && j < LISTED_RUNS
        invariant
            j <= listed(runs@),
            runs@.len() > 0,
            times_fit(runs@, now_ms as int),
            texts(lines@) == head + run_lines(runs@, now_ms as int, j as int),
        decreases runs@.len() - j,
    {
        let ghost before = texts(lines@);
        lines.push(write_run_line(&runs[j], now_ms));
        assert(texts(lines@) =~= before.push(run_line(runs@[j as int], now_ms as int)));
        assert(head + run_lines(runs@, now_ms as int, j + 1) =~= before.push(
            run_line(runs@[j as int], now_ms as int),
        ));
        j = j + 1;
    }
    join(&lines, "\n")
}

/// What became of reading the run history.
#[derive(Debug)]
pub enum RunHistory {
    OpenFailed(String),
    ReadFailed(String),
    Runs(Vec<RunRow>),
}

/// Replies to `/status`.
pub fn job_status(history: &RunHistory, now_ms: i64) -> (reply: String)
    requires
        history matches RunHistory::Runs(runs) ==> times_fit(runs@, now_ms as int),
    ensures
        reply@ == match history {
            RunHistory::OpenFailed(error) => "Couldn't open run history: "@ + error@,
            RunHistory::ReadFailed(error) => "Couldn't read run history: "@ + error@,
            RunHistory::Runs(runs) => status_of(runs@, now_ms as int),
        },
{
    match history {
        RunHistory::OpenFailed(error) => {
            let mut reply = "Couldn't open run history: ".to_owned();
            reply.append(error.as_str());
            reply
        },
        RunHistory::ReadFailed(error) => {
            let mut reply = "Couldn't read run history: ".to_owned();
            reply.append(error.as_str());
            reply
        },
        RunHistory::Runs(runs) => format_status(runs.as_slice(), now_ms),
    }
}

/// A schedule on which a job runs.
#[derive(Debug)]
pub struct Trigger {
    pub schedule: String,
    pub enabled: bool,
}

/// A job with its triggers.
#[derive(Debug)]
pub struct JobEntry {
    pub name: String,
    pub triggers: Vec<Trigger>,
}

/// The configured jobs.
#[derive(Debug)]
pub struct Catalog {
    /// In the order of their names, each name once.
    pub jobs: Vec<JobEntry>,
}

/// Where a job of this name stands.
pub open spec fn place_of(jobs: Seq<JobEntry>, name: Seq<char>) -> int {
    choose|i: int| 0 <= i < jobs.len() && (#[trigger] jobs[i]).name@ == name
}

/// Whether there is a job of this name.
pub open spec fn has_job(jobs: Seq<JobEntry>, name: Seq<char>) -> bool {
    exists|i: int| 0 <= i < jobs.len() && (#[trigger] jobs[i]).name@ == name
}

/// Whether the jobs stand in the order of their names, each name once.
pub open spec fn in_order(jobs: Seq<JobEntry>) -> bool {
    forall|i: int, j: int|
        0 <= i < j < jobs.len() ==> comes_before(
            (#[trigger] jobs[i]).name@,
            (#[trigger] jobs[j]).name@,
        )
}

/// The triggers of every job, by its name.
pub open spec fn by_name(jobs: Seq<JobEntry>) -> Map<Seq<char>, Seq<Trigger>> {
    Map::new(
        |name: Seq<char>| has_job(jobs, name),
        |name: Seq<char>| jobs[place_of(jobs, name)].triggers@,
    )
}

impl View for Catalog {
    type V = Map<Seq<char>, Seq<Trigger>>;

    open spec fn view(&self) -> Map<Seq<char>, Seq<Trigger>> {
        by_name(self.jobs@)
    }
}

/// A name leads to one place.
pub proof fn place_is_unique(jobs: Seq<JobEntry>, i: int)
    requires
        in_order(jobs),
        0 <= i < jobs.len(),
    ensures
        has_job(jobs, jobs[i].name@),
        place_of(jobs, jobs[i].name@) == i,
        by_name(jobs)[jobs[i].name@] == jobs[i].triggers@,
{
    let name = jobs[i].name@;
    assert(has_job(jobs, name));
    let at = place_of(jobs, name);
    texts_are_ordered(name, name);
    if at < i {
        assert(comes_before(jobs[at].name@, jobs[i].name@));
    } else if i < at {
        assert(comes_before(jobs[i].name@, jobs[at].name@));
    }
}

impl Catalog {
    /// What holds of every catalog that `new` and `insert` give.
    pub open spec fn wf(self) -> bool {
        in_order(self.jobs@)
    }

    /// A catalog without jobs.
    pub fn new() -> (catalog: Catalog)
        ensures
            catalog.wf(),
            catalog@ == Map::<Seq<char>, Seq<Trigger>>::empty(),
            catalog.jobs@.len() == 0,
    {
        let catalog = Catalog { jobs: Vec::new() };
        assert(catalog@ =~= Map::<Seq<char>, Seq<Trigger>>::empty());
        catalog
    }

    /// Adds a job, in place of one of the same name.
    pub fn insert(&mut self, name: String, triggers: Vec<Trigger>)
        requires
            old(self).wf(),
        ensures
            final(self).wf(),
            final(self)@ == old(self)@.insert(name@, triggers@),
    {
        let ghost before = self.jobs@;
        let mut at: usize = 0;
        while at < self.jobs.len() && is_before(self.jobs[at].name.as_str(), name.as_str())
            invariant
                at <= self.jobs@.len(),
                self.jobs@ == before,
                in_order(before),
                forall|i: int| 0 <= i < at ==> comes_before((#[trigger] before[i]).name@, name@),
            decreases self.jobs@.len() - at,
        {
            at = at + 1;
        }
        let replaces = at < self.jobs.len() && same(self.jobs[at].name.as_str(), name.as_str());
        let ghost entry = JobEntry { name, triggers };
        if replaces {
            self.jobs.set(at, JobEntry { name, triggers });
        } else {
            self.jobs.insert(at, JobEntry { name, triggers });
        }
        proof {
            insertion_keeps_order(before, self.jobs@, at as int, replaces, entry);
        }
    }
}

/// A job that is put at its place, or in place of the one of its name, leaves the jobs in order,
/// and the others as they were.
proof fn insertion_keeps_order(
    before: Seq<JobEntry>,
    after: Seq<JobEntry>,
    at: int,
    replaces: bool,
    entry: JobEntry,
)
    requires
        in_order(before),
        0 <= at <= before.len(),
        forall|i: int| 0 <= i < at ==> comes_before((#[trigger] before[i]).name@, entry.name@),
        at < before.len() ==> !comes_before(before[at].name@, entry.name@),
        replaces ==> at < before.len() && before[at].name@ == entry.name@ && after
            == before.update(at, entry),
        !replaces ==> after == before.insert(at, entry) && (at < before.len()
            ==> before[at].name@ != entry.name@),
    ensures
        in_order(after),
        by_name(after) == by_name(before).insert(entry.name@, entry.triggers@),
{
    let shift: int = if replaces {
        0
    } else {
        1
    };
    assert(after[at] == entry);
    assert forall|i: int| at < i < after.len() implies comes_before(
        entry.name@,
        (#[trigger] after[i]).name@,
    ) by {
        assert(after[i] == before[i - shift]);
        texts_are_ordered(before[at].name@, entry.name@);
        if i - shift > at {
            assert(comes_before(before[at].name@, before[i - shift].name@));
            if before[at].name@ != entry.name@ {
                text_order_carries_over(entry.name@, before[at].name@, before[i - shift].name@);
            }
        }
    }
    assert forall|i: int, j: int| 0 <= i < j < after.len() implies comes_before(
        (#[trigger] after[i]).name@,
        (#[trigger] after[j]).name@,
    ) by {
        if i < at {
            assert(after[i] == before[i]);
        } else if i > at {
            assert(after[i] == before[i - shift]);
        }
        if j < at {
            assert(after[j] == before[j]);
        } else if j > at {
            assert(after[j] == before[j - shift]);
            if i < at {
                assert(comes_before(before[i].name@, before[j - shift].name@));
            }
        }
    }
    let expected = by_name(before).insert(entry.name@, entry.triggers@);
    place_is_unique(after, at);
    assert forall|name: Seq<char>| #[trigger]
        by_name(after).dom().contains(name) <==> expected.dom().contains(name) by {
        if has_job(after, name) {
            let i = place_of(after, name);
            if i < at {
                assert(after[i] == before[i]);
                assert(has_job(before, name));
            } else if i > at {
                assert(after[i] == before[i - shift]);
                assert(has_job(before, name));
            }
        }
        if has_job(before, name) && name != entry.name@ {
            let i = place_of(before, name);
            if i < at {
                assert(after[i] == before[i]);
            } else {
                assert(after[i + shift] == before[i]);
            }
            assert(has_job(after, name));
        }
    }
    assert forall|name: Seq<char>| by_name(after).dom().contains(name) implies #[trigger] by_name(
        after,
    )[name] == expected[name] by {
        let i = place_of(after, name);
        place_is_unique(after, i);
        if i < at {
            assert(after[i] == before[i]);
            place_is_unique(before, i);
            texts_are_ordered(before[i].name@, entry.name@);
        } else if i > at {
            assert(after[i] == before[i - shift]);
            place_is_unique(before, i - shift);
            texts_are_ordered(entry.name@, after[i].name@);
        }
    }
    assert(by_name(after) =~= expected);
}

/// What the listing says of a trigger.
pub open spec fn trigger_text(trigger: Trigger) -> Seq<char> {
    (if trigger.enabled {
        "on"@
    } else {
        "off"@
    }) + " `"@ + trigger.schedule@ + "`"@
}

/// What the listing says of the triggers of a job.
pub open spec fn triggers_text(triggers: Seq<Trigger>) -> Seq<char> {
    if triggers.len() == 0 {
        "manual only"@
    } else {
        joined(triggers.map_values(|trigger: Trigger| trigger_text(trigger)), ", "@)
    }
}

/// The line about a job.
pub open spec fn job_line(job: JobEntry) -> Seq<char> {
    "• "@ + job.name@ + " — "@ + triggers_text(job.triggers@)
}

/// The lines about jobs.
pub open spec fn job_lines(jobs: Seq<JobEntry>) -> Seq<Seq<char>> {
    jobs.map_values(|job: JobEntry| job_line(job))
}

/// The listing of jobs.
pub open spec fn listing_of(jobs: Seq<JobEntry>) -> Seq<char> {
    if jobs.len() == 0 {
        "No jobs are defined."@
    } else {
        joined(seq!["Jobs:"@] + job_lines(jobs), "\n"@)
    }
}

/// Writes what the listing says of the triggers of a job.
fn write_triggers(triggers: &Vec<Trigger>) -> (text: String)
    ensures
        text@ == triggers_text(triggers@),
{
    if triggers.len() == 0 {
        return "manual only".to_owned();
    }
    let ghost all = triggers@.map_values(|trigger: Trigger| trigger_text(trigger));
    let mut parts: Vec<String> = Vec::new();
    let mut i: usize = 0;
    while i < triggers.len()
        invariant
            i <= triggers@.len(),
            all == triggers@.map_values(|trigger: Trigger| trigger_text(trigger)),
            texts(parts@) == all.take(i as int),
        decreases triggers@.len() - i,
    {
        let ghost before = texts(parts@);
        let mut part = if triggers[i].enabled {
            "on".to_owned()
        } else {
            "off".to_owned()
        };
        part.append(" `");
        part.append(triggers[i].schedule.as_str());
        part.append("`");
        parts.push(part);
        assert(texts(parts@) =~= before.push(part@));
        assert(all.take(i + 1) =~= before.push(part@));
        i = i + 1;
    }
    assert(all.take(i as int) =~= all);
    join(&parts, ", ")
}

/// Lists the configured jobs.
pub fn format_jobs(catalog: &Catalog) -> (text: String)
    ensures
        text@ == listing_of(catalog.jobs@),
{
    if catalog.jobs.len() == 0 {
        return "No jobs are defined.".to_owned();
    }
    let ghost all = job_lines(catalog.jobs@);
    let mut lines: Vec<String> = Vec::new();
    lines.push("Jobs:".to_owned());
    let mut i: usize = 0;
    assert(texts(lines@) =~= seq!["Jobs:"@] + all.take(0));
    while i < catalog.jobs.len()
        invariant
            i <= catalog.jobs@.len(),
            all == job_lines(catalog.jobs@),
            texts(lines@) == seq!["Jobs:"@] + all.take(i as int),
        decreases catalog.jobs@.len() - i,
    {
        let ghost before = texts(lines@);
        let job = &catalog.jobs[i];
        let mut line = "• ".to_owned();
        line.append(job.name.as_str());
        line.append(" — ");
        line.append(write_triggers(&job.triggers).as_str());
        lines.push(line);
        assert(texts(lines@) =~= before.push(line@));
        assert(seq!["Jobs:"@] + all.take(i + 1) =~= before.push(line@));
        i = i + 1;
    }
    assert(all.take(i as int) =~= all);
    join(&lines, "\n")
}

/// Replies to `/jobs`, given the catalog or why it could not be loaded.
pub fn list_jobs(loaded: &Result<Catalog, String>) -> (reply: String)
    ensures
        reply@ == match loaded {
            Ok(catalog) => listing_of(catalog.jobs@),
            Err(error) => "Couldn't load jobs: "@ + error@,
        },
{
    match loaded {
        Ok(catalog) => format_jobs(catalog),
        Err(error) => {
            let mut reply = "Couldn't load jobs: ".to_owned();
            reply.append(error.as_str());
            reply
        },
    }
}

/// What became of running a job by hand.
#[derive(Debug)]
pub enum ManualRun {
    LoadFailed(String),
    RunFailed(String),
    Output(String),
}

/// What is said about `/run` without a job to run.
pub open spec fn run_usage() -> Seq<char> {
    "Usage: /run <job-name>"@
}

/// The reply to `/run` with the name of a job, given what became of it.
pub open spec fn manual_run_reply(name: Seq<char>, run: ManualRun) -> Seq<char> {
    match run {
        ManualRun::LoadFailed(error) => "Couldn't load job `"@ + name + "`: "@ + error@,
        ManualRun::RunFailed(error) => "Job `"@ + name + "` failed: "@ + error@,
        ManualRun::Output(output) => output@,
    }
}

/// Replies to `/run` at once where no job is named; otherwise the job is to be run.
pub fn run_job_usage(name: &str) -> (reply: Option<String>)
    ensures
        reply is Some <==> name@.len() == 0,
        reply matches Some(text) ==> text@ == run_usage(),
{
    if name.is_empty() {
        Some("Usage: /run <job-name>".to_owned())
    } else {
        None
    }
}

/// Replies to `/run` with the name of a job.
pub fn run_job(name: &str, run: &ManualRun) -> (reply: String)
    ensures
        reply@ == manual_run_reply(name@, *run),
{
    match run {
        ManualRun::LoadFailed(error) => {
            let mut reply = "Couldn't load job `".to_owned();
            reply.append(name);
            reply.append("`: ");
            reply.append(error.as_str());
            reply
        },
        ManualRun::RunFailed(error) => {
            let mut reply = "Job `".to_owned();
            reply.append(name);
            reply.append("` failed: ");
            reply.append(error.as_str());
            reply
        },
        ManualRun::Output(output) => output.clone(),
    }
}

} // verus!
