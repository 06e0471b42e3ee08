use lunasched::running::{running_contains, running_get};
use lunasched::scheduler::{CompletionAction, HistoryRecord, RetryRecord};
use lunasched::{
    BackoffStrategy, CalendarParams, ExecutionMode, Job, JobHooks, JobId, JobPriority,
    NotificationConfig, ResourceLimits, RetryPolicy, RunOutcome, RunStatus, ScheduleConfig,
    Scheduler,
};

/// 2024-01-08T14:00:00Z, a Monday; 09:00:00 in New York.
const T0: i64 = 1_704_722_400_000;

fn job(id: &str, schedule: ScheduleConfig) -> Job {
    Job {
        id: JobId(id.to_string()),
        name: id.to_string(),
        schedule,
        command: "/bin/true".to_string(),
        args: vec![],
        env: vec![],
        enabled: true,
        owner: "root".to_string(),
        retry_policy: RetryPolicy::default(),
        resource_limits: ResourceLimits::default(),
        jitter_seconds: 0,
        timezone: None,
        tags: vec![],
        dependencies: vec![],
        hooks: JobHooks::default(),
        max_concurrent: 0,
        priority: JobPriority::default(),
        execution_mode: ExecutionMode::default(),
        notification_config: NotificationConfig::default(),
    }
}

fn failed(code: i32) -> RunOutcome {
    RunOutcome::Exited { success: false, exit_code: code, output: "Stdout:\n\nStderr:\n".to_string() }
}

#[test]
fn interval_catch_up_fires_twice() {
    let mut s = Scheduler::new();
    s.add_job(job("a", ScheduleConfig::Every(2)));
    let due = s.tick(T0);
    assert_eq!(due.len(), 1);
    assert_eq!(due[0].id, JobId("a".to_string()));
    assert_eq!(s.last_runs.get("a"), Some(&T0));
    s.finish_job("a");
    let due = s.tick(T0 + 7_000);
    assert_eq!(due.len(), 1);
    assert_eq!(s.last_runs.get("a"), Some(&(T0 + 2_000)));
}

#[test]
fn interval_far_behind_resets_to_now() {
    let mut s = Scheduler::new();
    s.add_job(job("a", ScheduleConfig::Every(2)));
    s.tick(T0);
    s.finish_job("a");
    let due = s.tick(T0 + 30_000);
    assert_eq!(due.len(), 1);
    assert_eq!(s.last_runs.get("a"), Some(&(T0 + 30_000)));
}

#[test]
fn interval_not_yet_due() {
    let mut s = Scheduler::new();
    s.add_job(job("a", ScheduleConfig::Every(60)));
    s.tick(T0);
    s.finish_job("a");
    assert_eq!(s.tick(T0 + 59_999).len(), 0);
    assert_eq!(s.tick(T0 + 60_000).len(), 1);
    assert_eq!(s.last_runs.get("a"), Some(&(T0 + 60_000)));
}

#[test]
fn cron_fires_once_in_its_minute() {
    let mut s = Scheduler::new();
    s.add_job(job("b", ScheduleConfig::Cron("*/5 * * * *".to_string())));
    let due = s.tick(T0);
    assert_eq!(due.len(), 1);
    assert_eq!(s.last_runs.get("b"), Some(&T0));
    s.finish_job("b");
    assert_eq!(s.tick(T0 + 500).len(), 0);
}

#[test]
fn cron_outside_its_minute_is_not_due() {
    let mut s = Scheduler::new();
    s.add_job(job("b", ScheduleConfig::Cron("*/5 * * * *".to_string())));
    assert_eq!(s.tick(T0 + 60_000).len(), 0);
}

#[test]
fn invalid_cron_is_never_due() {
    let mut s = Scheduler::new();
    s.add_job(job("b", ScheduleConfig::Cron("not a schedule".to_string())));
    assert_eq!(s.tick(T0).len(), 0);
}

#[test]
fn retry_exponential_runs_four_times() {
    let mut s = Scheduler::new();
    let mut c = job("c", ScheduleConfig::Every(86_400));
    c.command = "/bin/false".to_string();
    c.retry_policy = RetryPolicy {
        max_attempts: 3,
        backoff_strategy: BackoffStrategy::Exponential,
        initial_delay_seconds: 10,
        max_delay_seconds: 3600,
    };
    s.add_job(c.clone());
    let mut runs = 0;
    let mut now = T0;
    let gaps = [10_000, 20_000, 40_000];
    assert_eq!(s.tick(now).len(), 1);
    runs += 1;
    for (i, gap) in gaps.iter().enumerate() {
        let action = s.complete_job(&c, failed(1), now);
        assert_eq!(
            action,
            CompletionAction {
                history: None,
                retry: Some(RetryRecord { attempt: i as u32 + 1, next_retry_at: now + gap, exit_code: 1 }),
                hook: None,
            }
        );
        assert_eq!(s.retry_state.get("c").unwrap().attempt, i as u32 + 1);
        assert_eq!(s.tick(now + gap - 1).len(), 0);
        now += gap;
        let due = s.tick(now);
        assert_eq!(due.len(), 1);
        let ctx = running_get(&s.running_jobs, "c").unwrap();
        assert_eq!(ctx.scheduled_time, now);
        assert_eq!(ctx.start_time, now);
        runs += 1;
    }
    let action = s.complete_job(&c, failed(1), now);
    assert_eq!(runs, 4);
    assert_eq!(
        action.history,
        Some(HistoryRecord { status: RunStatus::Failed, output: "Stdout:\n\nStderr:\n".to_string() })
    );
    assert_eq!(action.history.unwrap().status.as_str(), "failed");
    assert!(!s.retry_state.contains_key("c"));
    assert!(!running_contains(&s.running_jobs, "c"));
}

#[test]
fn success_clears_the_pending_retry() {
    let mut s = Scheduler::new();
    let mut c = job("c", ScheduleConfig::Every(86_400));
    c.retry_policy.max_attempts = 2;
    c.hooks.on_success = Some("echo ok".to_string());
    s.add_job(c.clone());
    s.tick(T0);
    s.complete_job(&c, failed(2), T0);
    assert!(s.retry_state.contains_key("c"));
    s.tick(T0 + 60_000);
    let action = s.complete_job(
        &c,
        RunOutcome::Exited { success: true, exit_code: 0, output: "done".to_string() },
        T0 + 60_000,
    );
    assert!(!s.retry_state.contains_key("c"));
    assert_eq!(action.hook, Some("echo ok".to_string()));
    assert_eq!(action.history.unwrap().status, RunStatus::Success);
}

#[test]
fn no_retries_means_no_retry_state() {
    let mut s = Scheduler::new();
    let mut c = job("c", ScheduleConfig::Every(86_400));
    c.hooks.on_failure = Some("echo failed".to_string());
    s.add_job(c.clone());
    s.tick(T0);
    let action = s.complete_job(&c, failed(1), T0);
    assert!(!s.retry_state.contains_key("c"));
    assert_eq!(action.hook, Some("echo failed".to_string()));
}

#[test]
fn wait_and_spawn_failures_are_recorded() {
    let mut s = Scheduler::new();
    let c = job("c", ScheduleConfig::Every(86_400));
    s.add_job(c.clone());
    s.tick(T0);
    let action = s.complete_job(&c, RunOutcome::WaitFailed("gone".to_string()), T0);
    let h = action.history.unwrap();
    assert_eq!(h.status.as_str(), "Error");
    assert_eq!(h.output, "Failed to wait: gone");
    let action = s.complete_job(&c, RunOutcome::SpawnFailed("no such file".to_string()), T0);
    let h = action.history.unwrap();
    assert_eq!(h.status.as_str(), "SpawnError");
    assert_eq!(h.output, "Failed to spawn: no such file");
}

#[test]
fn a_running_job_is_not_handed_out_again() {
    let mut s = Scheduler::new();
    s.add_job(job("a", ScheduleConfig::Every(1)));
    assert_eq!(s.tick(T0).len(), 1);
    assert_eq!(s.tick(T0 + 5_000).len(), 0);
    assert_eq!(s.last_runs.get("a"), Some(&T0));
    let ctx = running_get(&s.running_jobs, "a").unwrap();
    assert_eq!(ctx.execution_id.len(), 36);
    for (i, c) in ctx.execution_id.chars().enumerate() {
        if [8, 13, 18, 23].contains(&i) {
            assert_eq!(c, '-');
        } else {
            assert!(c.is_ascii_digit() || ('a'..='f').contains(&c));
        }
    }
    assert_eq!(ctx.execution_id.chars().nth(14), Some('4'));
    assert_eq!(ctx.pid, None);
    s.set_pid("a", 4242);
    assert_eq!(running_get(&s.running_jobs, "a").unwrap().pid, Some(4242));
}

#[test]
fn disabled_jobs_do_not_fire() {
    let mut s = Scheduler::new();
    let mut a = job("a", ScheduleConfig::Every(1));
    a.enabled = false;
    s.add_job(a);
    assert_eq!(s.tick(T0).len(), 0);
}

#[test]
fn jittered_fires_stay_an_interval_apart() {
    let mut s = Scheduler::new();
    let mut a = job("a", ScheduleConfig::Every(60));
    a.jitter_seconds = 5;
    s.add_job(a);
    assert_eq!(s.tick(T0).len(), 1);
    let first = *s.last_runs.get("a").unwrap();
    assert!(first >= T0 && first < T0 + 5_000);
    assert_eq!(running_get(&s.running_jobs, "a").unwrap().scheduled_time, first);
    s.finish_job("a");
    assert_eq!(s.tick(first + 59_999).len(), 0);
    assert_eq!(s.tick(first + 60_000).len(), 1);
    let second = *s.last_runs.get("a").unwrap();
    assert!(second - first >= 60_000);
}

fn new_york_monday_nine() -> Job {
    let mut f = job(
        "f",
        ScheduleConfig::Calendar(CalendarParams {
            days_of_week: Some(vec![1]),
            nth_weekday: None,
            time: (9, 0, 0),
        }),
    );
    f.timezone = Some("America/New_York".to_string());
    f
}

#[test]
fn calendar_with_timezone_fires_once() {
    let mut s = Scheduler::new();
    s.add_job(new_york_monday_nine());
    assert_eq!(s.tick(T0 - 1_000).len(), 0);
    assert_eq!(s.tick(T0).len(), 1);
    assert_eq!(s.last_execution_windows.get("f"), Some(&T0));
    s.finish_job("f");
    assert_eq!(s.tick(T0 + 1_000).len(), 0);
}

#[test]
fn calendar_does_not_fire_twice_in_one_second() {
    let mut s = Scheduler::new();
    s.add_job(new_york_monday_nine());
    assert_eq!(s.tick(T0).len(), 1);
    s.finish_job("f");
    assert_eq!(s.tick(T0 + 500).len(), 0);
}

#[test]
fn calendar_day_filter_excludes_other_days() {
    let mut s = Scheduler::new();
    s.add_job(new_york_monday_nine());
    assert_eq!(s.tick(T0 + 86_400_000).len(), 0);
}

#[test]
fn calendar_nth_weekday_matches_the_second_monday() {
    let mut s = Scheduler::new();
    let mut f = new_york_monday_nine();
    f.schedule = ScheduleConfig::Calendar(CalendarParams {
        days_of_week: None,
        nth_weekday: Some((2, 1)),
        time: (9, 0, 0),
    });
    s.add_job(f.clone());
    assert_eq!(s.tick(T0).len(), 1);
    let mut g = f;
    g.id = JobId("g".to_string());
    g.schedule = ScheduleConfig::Calendar(CalendarParams {
        days_of_week: None,
        nth_weekday: Some((1, 1)),
        time: (9, 0, 0),
    });
    s.add_job(g);
    assert_eq!(s.tick(T0 + 1_000).len(), 0);
}

#[test]
fn removing_a_job_drops_its_history() {
    let mut s = Scheduler::new();
    let mut c = job("c", ScheduleConfig::Every(10));
    c.retry_policy.max_attempts = 1;
    s.add_job(c.clone());
    s.tick(T0);
    s.complete_job(&c, failed(1), T0);
    assert!(s.remove_job("c"));
    assert!(!s.remove_job("c"));
    assert!(s.last_runs.get("c").is_none());
    assert!(!s.retry_state.contains_key("c"));
    assert!(s.jobs.get("c").is_none());
}

#[test]
fn replacing_a_job_keeps_its_fire_history() {
    let mut s = Scheduler::new();
    s.add_job(job("a", ScheduleConfig::Every(60)));
    s.tick(T0);
    s.add_job(job("a", ScheduleConfig::Every(120)));
    assert_eq!(s.last_runs.get("a"), Some(&T0));
    assert_eq!(s.jobs.len(), 1);
    assert_eq!(s.jobs.get("a").unwrap().schedule, ScheduleConfig::Every(120));
}

#[test]
fn instants_beyond_the_clock_horizon_fire_nothing() {
    let mut s = Scheduler::new();
    let mut tokyo = new_york_monday_nine();
    tokyo.timezone = Some("Asia/Tokyo".to_string());
    s.add_job(tokyo);
    let mut host = new_york_monday_nine();
    host.id = JobId("h".to_string());
    host.timezone = None;
    s.add_job(host);
    s.add_job(job("c", ScheduleConfig::Cron("* * * * * *".to_string())));
    assert_eq!(s.tick(i64::MAX).len(), 0);
    assert_eq!(s.tick(i64::MIN).len(), 0);
}
