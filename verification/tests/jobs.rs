use push_gateway::gateway::jobs::{
    format_jobs, format_status, job_status, list_jobs, relative_time, run_job, run_job_usage,
    state_icon, status_times_fit, Catalog, ManualRun, RunHistory, RunRow, Trigger,
};

fn cron(schedule: &str, enabled: bool) -> Trigger {
    Trigger {
        schedule: schedule.to_string(),
        enabled,
    }
}

fn run_row(name: &str, state: &str, queued_at_ms: i64) -> RunRow {
    RunRow {
        job_name: name.to_string(),
        state: state.to_string(),
        queued_at_ms,
    }
}

#[test]
fn format_jobs_lists_names_and_trigger_state() {
    let mut catalog = Catalog::new();
    catalog.insert("alpha".to_string(), vec![cron("0 8 * * *", true)]);
    catalog.insert("beta".to_string(), Vec::new());

    let listing = format_jobs(&catalog);
    assert!(listing.contains("• alpha — on `0 8 * * *`"));
    assert!(listing.contains("• beta — manual only"));
}

#[test]
fn format_jobs_handles_empty_catalog() {
    let catalog = Catalog::new();
    assert_eq!(format_jobs(&catalog), "No jobs are defined.");
}

#[test]
fn relative_time_scales_by_unit() {
    assert_eq!(relative_time(5_000), "5s ago");
    assert_eq!(relative_time(120_000), "2m ago");
    assert_eq!(relative_time(7_200_000), "2h ago");
    assert_eq!(relative_time(3 * 86_400_000), "3d ago");
    assert_eq!(relative_time(-1000), "0s ago");
}

#[test]
fn format_status_summarizes_recent_runs() {
    let now = 100 * 86_400_000;
    let runs = [
        run_row("alpha", "succeeded", now - 60_000),
        run_row("beta", "failed", now - 3_600_000),
        run_row("gamma", "timed_out", now - 2 * 86_400_000), // outside 24h
    ];
    let status = format_status(&runs, now);
    // Only runs within 24h count toward the summary.
    assert!(status.contains("Last 24h: 1 ok, 1 failed"));
    assert!(status.contains("✅ alpha — succeeded (1m ago)"));
    assert!(status.contains("⚠️ beta — failed (1h ago)"));
    assert!(status.contains("gamma — timed_out (2d ago)"));
}

#[test]
fn format_status_handles_no_runs() {
    assert_eq!(format_status(&[], 0), "No job runs yet.");
}

#[test]
fn at_most_eight_runs_are_listed_and_all_are_counted() {
    let runs: Vec<RunRow> = (0..12).map(|i| run_row(&format!("j{i}"), "succeeded", 0)).collect();
    let status = format_status(&runs, 0);
    assert!(status.starts_with("Last 24h: 12 ok, 0 failed\nRecent runs:\n✅ j0 — succeeded (0s ago)\n"));
    assert_eq!(status.lines().count(), 10);
    assert!(status.ends_with("✅ j7 — succeeded (0s ago)"));
}

#[test]
fn a_run_of_exactly_a_day_ago_counts() {
    let runs = [run_row("a", "failed", 5), run_row("b", "failed", 4)];
    assert!(format_status(&runs, 86_400_005).starts_with("Last 24h: 0 ok, 1 failed"));
}

#[test]
fn times_at_the_ends_of_the_numbers_do_not_fit() {
    assert!(status_times_fit(&[], i64::MIN));
    assert!(!status_times_fit(&[run_row("a", "queued", 0)], i64::MIN));
    assert!(!status_times_fit(&[run_row("a", "queued", -2)], i64::MAX));
    assert!(status_times_fit(&[run_row("a", "queued", 0)], i64::MAX));
}

#[test]
fn states_have_signs() {
    assert_eq!(state_icon("running"), "⏳");
    assert_eq!(state_icon("queued"), "•");
    assert_eq!(state_icon("skipped"), "◦");
    assert_eq!(state_icon("timed_out"), "⚠️");
}

#[test]
fn the_catalog_keeps_names_in_order_and_once() {
    let mut catalog = Catalog::new();
    catalog.insert("beta".to_string(), Vec::new());
    catalog.insert("alpha".to_string(), vec![cron("@daily", false), cron("@hourly", true)]);
    catalog.insert("alphabet".to_string(), Vec::new());
    catalog.insert("beta".to_string(), vec![cron("@weekly", true)]);
    assert_eq!(
        format_jobs(&catalog),
        "Jobs:\n• alpha — off `@daily`, on `@hourly`\n• alphabet — manual only\n• beta — on `@weekly`"
    );
}

#[test]
fn failures_are_told() {
    let failed = || "broken".to_string();
    assert_eq!(list_jobs(&Err(failed())), "Couldn't load jobs: broken");
    assert_eq!(list_jobs(&Ok(Catalog::new())), "No jobs are defined.");
    assert_eq!(
        job_status(&RunHistory::OpenFailed(failed()), 0),
        "Couldn't open run history: broken"
    );
    assert_eq!(
        job_status(&RunHistory::ReadFailed(failed()), 0),
        "Couldn't read run history: broken"
    );
    assert_eq!(job_status(&RunHistory::Runs(Vec::new()), 0), "No job runs yet.");
    assert_eq!(run_job_usage("").as_deref(), Some("Usage: /run <job-name>"));
    assert_eq!(run_job_usage("x"), None);
    assert_eq!(
        run_job("x", &ManualRun::LoadFailed(failed())),
        "Couldn't load job `x`: broken"
    );
    assert_eq!(run_job("x", &ManualRun::RunFailed(failed())), "Job `x` failed: broken");
    assert_eq!(run_job("x", &ManualRun::Output("done".to_string())), "done");
}
