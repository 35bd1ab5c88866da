//! What holds of the replies about jobs and their runs.

use crate::gateway::jobs::{
    count_since, icon_of, job_line, job_lines, listed, listing_of, manual_run_reply, run_line,
    place_is_unique, run_lines, run_usage, status_of, summary_line, time_ago, times_fit,
    trigger_text, Catalog, JobEntry, ManualRun, RunRow, Trigger,
};
use crate::number::decimal;
use crate::text::{comes_before, joined};
use vstd::prelude::*;

verus! {

/// How long ago something was is told in the largest unit that it fills: whole days, hours, minutes
/// or seconds, rounded down. What lies ahead is no time ago.
pub proof fn time_is_told_in_the_largest_unit(ms_ago: int, n: int)
    requires
        n >= 0,
    ensures
        ms_ago < 1000 ==> time_ago(ms_ago) == decimal(0) + "s ago"@,
        n < 60 && n * 1_000 <= ms_ago < (n + 1) * 1_000 ==> time_ago(ms_ago) == decimal(n as nat)
            + "s ago"@,
        1 <= n < 60 && n * 60_000 <= ms_ago < (n + 1) * 60_000 ==> time_ago(ms_ago) == decimal(
            n as nat,
        ) + "m ago"@,
        1 <= n < 24 && n * 3_600_000 <= ms_ago < (n + 1) * 3_600_000 ==> time_ago(ms_ago)
            == decimal(n as nat) + "h ago"@,
        1 <= n && n * 86_400_000 <= ms_ago < (n + 1) * 86_400_000 ==> time_ago(ms_ago) == decimal(
            n as nat,
        ) + "d ago"@,
{
}

/// Every state has its sign: only runs that succeeded get the good one, and those that failed or
/// took too long the warning.
pub proof fn every_state_has_its_sign(state: Seq<char>)
    ensures
        state == "succeeded"@ ==> icon_of(state) == "✅"@,
        state == "failed"@ || state == "timed_out"@ ==> icon_of(state) == "⚠️"@,
        state == "running"@ ==> icon_of(state) == "⏳"@,
        state == "queued"@ ==> icon_of(state) == "•"@,
        state != "succeeded"@ && state != "failed"@ && state != "timed_out"@ && state
            != "running"@ && state != "queued"@ ==> icon_of(state) == "◦"@,
{
    reveal_strlit("succeeded");
    reveal_strlit("failed");
    reveal_strlit("timed_out");
    reveal_strlit("running");
    reveal_strlit("queued");
    assert("failed"@[0] != "queued"@[0]);
    assert("succeeded"@[0] != "timed_out"@[0]);
    assert("succeeded"@.len() == 9);
    assert("timed_out"@.len() == 9);
    assert("running"@.len() == 7);
    assert("failed"@.len() == 6);
    assert("queued"@.len() == 6);
}

/// What stands behind the first runs does not matter to their count.
proof fn count_of_first(runs: Seq<RunRow>, run: RunRow, since: int, well: bool, n: int)
    requires
        0 <= n <= runs.len(),
    ensures
        count_since(runs.push(run), since, well, n) == count_since(runs, since, well, n),
    decreases n,
{
    if n > 0 {
        count_of_first(runs, run, since, well, n - 1);
        assert(runs.push(run)[n - 1] == runs[n - 1]);
    }
}

/// One more run counts as one that ended well exactly where it succeeded and was queued in time, and
/// as one that ended badly exactly where it failed or took too long and was queued in time.
pub proof fn a_run_counts_by_its_end(runs: Seq<RunRow>, run: RunRow, since: int)
    ensures
        count_since(Seq::empty(), since, true, 0) == 0,
        count_since(Seq::empty(), since, false, 0) == 0,
        count_since(runs.push(run), since, true, runs.len() as int + 1) == count_since(
            runs,
            since,
            true,
            runs.len() as int,
        ) + (if run.queued_at_ms >= since && run.state@ == "succeeded"@ {
            1nat
        } else {
            0
        }),
        count_since(runs.push(run), since, false, runs.len() as int + 1) == count_since(
            runs,
            since,
            false,
            runs.len() as int,
        ) + (if run.queued_at_ms >= since && (run.state@ == "failed"@ || run.state@
            == "timed_out"@) {
            1nat
        } else {
            0
        }),
{
    let n = runs.len() as int;
    assert(runs.push(run)[n] == run);
    count_of_first(runs, run, since, true, n);
    count_of_first(runs, run, since, false, n);
}

/// The first of the runs, one below the other, each with its sign, its job, its state and its age.
pub open spec fn runs_below(head: Seq<char>, runs: Seq<RunRow>, now_ms: int, n: int) -> Seq<char>
    decreases n,
{
    if n <= 0 {
        head
    } else {
        let run = runs[n - 1];
        runs_below(head, runs, now_ms, n - 1) + "\n"@ + (icon_of(run.state@) + " "@ + run.job_name@
            + " — "@ + run.state@ + " ("@ + time_ago(now_ms - run.queued_at_ms) + ")"@)
    }
}

/// Lines and the runs below them, joined.
proof fn runs_stand_below(front: Seq<Seq<char>>, runs: Seq<RunRow>, now_ms: int, n: int)
    requires
        front.len() > 0,
        0 <= n <= runs.len(),
    ensures
        joined(front + run_lines(runs, now_ms, n), "\n"@) == runs_below(
            joined(front, "\n"@),
            runs,
            now_ms,
            n,
        ),
    decreases n,
{
    let lines = front + run_lines(runs, now_ms, n);
    if n == 0 {
        assert(lines =~= front);
    } else {
        assert(lines.drop_last() =~= front + run_lines(runs, now_ms, n - 1));
        assert(lines.last() == run_line(runs[n - 1], now_ms));
        runs_stand_below(front, runs, now_ms, n - 1);
    }
}

/// The report counts all runs of the last day, those that ended well and those that ended badly, and
/// lists the first eight below; without a run it says so.
pub proof fn the_report_counts_a_day_and_lists_eight(runs: Seq<RunRow>, now_ms: int)
    ensures
        runs.len() == 0 ==> status_of(runs, now_ms) == "No job runs yet."@,
        runs.len() > 0 ==> status_of(runs, now_ms) == runs_below(
            "Last 24h: "@ + decimal(
                count_since(runs, now_ms - 86_400_000, true, runs.len() as int),
            ) + " ok, "@ + decimal(
                count_since(runs, now_ms - 86_400_000, false, runs.len() as int),
            ) + " failed"@ + "\n"@ + "Recent runs:"@,
            runs,
            now_ms,
            if runs.len() < 8 {
                runs.len() as int
            } else {
                8
            },
        ),
{
    if runs.len() > 0 {
        let head = summary_line(runs, now_ms);
        let front = seq![head, "Recent runs:"@];
        assert(front.drop_last() =~= seq![head]);
        assert(joined(seq![head], "\n"@) == head);
        runs_stand_below(front, runs, now_ms, listed(runs));
    }
}

/// A report can be made wherever the day before now and the ages of the listed runs are numbers.
pub proof fn a_report_can_be_made_of_ordinary_times(runs: Seq<RunRow>, now_ms: int)
    requires
        0 <= now_ms <= i64::MAX,
        forall|i: int| 0 <= i < runs.len() ==> (#[trigger] runs[i]).queued_at_ms >= 0,
    ensures
        times_fit(runs, now_ms),
{
}

/// The schedules of a job, with commas between them, each switched on or off.
pub open spec fn schedules(triggers: Seq<Trigger>) -> Seq<char>
    decreases triggers.len(),
{
    if triggers.len() == 0 {
        Seq::empty()
    } else {
        let trigger = triggers.last();
        let text = (if trigger.enabled {
            "on"@
        } else {
            "off"@
        }) + " `"@ + trigger.schedule@ + "`"@;
        if triggers.len() == 1 {
            text
        } else {
            schedules(triggers.drop_last()) + ", "@ + text
        }
    }
}

/// What is joined of the triggers of a job is its schedules.
proof fn schedules_are_joined(triggers: Seq<Trigger>)
    ensures
        joined(triggers.map_values(|trigger: Trigger| trigger_text(trigger)), ", "@) == schedules(
            triggers,
        ),
    decreases triggers.len(),
{
    let lines = triggers.map_values(|trigger: Trigger| trigger_text(trigger));
    if triggers.len() > 0 {
        let front = triggers.drop_last();
        assert(lines.drop_last() =~= front.map_values(|trigger: Trigger| trigger_text(trigger)));
        assert(lines.last() == trigger_text(triggers.last()));
        schedules_are_joined(front);
    }
}

/// A job is listed with its name and all its schedules, in their order; one without a schedule runs
/// by hand only.
pub proof fn a_job_is_listed_with_its_schedules(job: JobEntry)
    ensures
        job_line(job) == "• "@ + job.name@ + " — "@ + (if job.triggers@.len() == 0 {
            "manual only"@
        } else {
            schedules(job.triggers@)
        }),
{
    schedules_are_joined(job.triggers@);
}

/// The lines about jobs, one below the other.
pub open spec fn jobs_below(head: Seq<char>, jobs: Seq<JobEntry>) -> Seq<char>
    decreases jobs.len(),
{
    if jobs.len() == 0 {
        head
    } else {
        jobs_below(head, jobs.drop_last()) + "\n"@ + job_line(jobs.last())
    }
}

/// The head of a listing and the jobs below it, joined.
proof fn jobs_stand_below(head: Seq<char>, jobs: Seq<JobEntry>)
    ensures
        joined(seq![head] + job_lines(jobs), "\n"@) == jobs_below(head, jobs),
    decreases jobs.len(),
{
    let lines = seq![head] + job_lines(jobs);
    if jobs.len() == 0 {
        assert(lines =~= seq![head]);
    } else {
        assert(lines.drop_last() =~= seq![head] + job_lines(jobs.drop_last()));
        assert(lines.last() == job_line(jobs.last()));
        jobs_stand_below(head, jobs.drop_last());
    }
}

/// The listing holds every job, in the order of the catalog; without a job it says so.
pub proof fn every_job_is_listed(jobs: Seq<JobEntry>)
    ensures
        jobs.len() == 0 ==> listing_of(jobs) == "No jobs are defined."@,
        jobs.len() > 0 ==> listing_of(jobs) == jobs_below("Jobs:"@, jobs),
{
    jobs_stand_below("Jobs:"@, jobs);
}

/// What a run by hand came to is told with the name of the job, unless it has an output, which is
/// told as it is.
pub proof fn a_run_by_hand_is_told(name: Seq<char>, text: String)
    ensures
        run_usage() == "Usage: /run <job-name>"@,
        manual_run_reply(name, ManualRun::LoadFailed(text)) == "Couldn't load job `"@ + name
            + "`: "@ + text@,
        manual_run_reply(name, ManualRun::RunFailed(text)) == "Job `"@ + name + "` failed: "@
            + text@,
        manual_run_reply(name, ManualRun::Output(text)) == text@,
{
}

/// The jobs of a catalog stand in the order of their names, the first one first, and each is found by
/// its name, with its own triggers; no other name is found.
pub proof fn jobs_stand_in_the_order_of_their_names(
    catalog: Catalog,
    i: int,
    j: int,
    name: Seq<char>,
)
    requires
        catalog.wf(),
        0 <= i < j < catalog.jobs@.len(),
    ensures
        comes_before(catalog.jobs@[i].name@, catalog.jobs@[j].name@),
        catalog@.dom().contains(catalog.jobs@[i].name@),
        catalog@[catalog.jobs@[i].name@] == catalog.jobs@[i].triggers@,
        catalog@[catalog.jobs@[j].name@] == catalog.jobs@[j].triggers@,
        catalog@.dom().contains(name) ==> exists|k: int|
            0 <= k < catalog.jobs@.len() && (#[trigger] catalog.jobs@[k]).name@ == name,
{
    place_is_unique(catalog.jobs@, i);
    place_is_unique(catalog.jobs@, j);
}

} // verus!
