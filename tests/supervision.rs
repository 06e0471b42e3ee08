use lunasched::supervisor::{
    combined_output, command_line, cpu_quota_text, limit_env, spawn_args, timeout_step,
    TimeoutAction, TimeoutState,
};
use lunasched::{
    ExecutionMode, Job, JobHooks, JobId, JobPriority, KeyValue, NotificationConfig,
    ResourceLimits, RetryPolicy, RunOutcome, RunStatus, ScheduleConfig, Scheduler,
};

fn job(command: &str, args: &[&str], owner: &str) -> Job {
    Job {
        id: JobId("e".to_string()),
        name: "e".to_string(),
        schedule: ScheduleConfig::Every(3600),
        command: command.to_string(),
        args: args.iter().map(|a| a.to_string()).collect(),
        env: vec![],
        enabled: true,
        owner: owner.to_string(),
        retry_policy: RetryPolicy::default(),
        resource_limits: ResourceLimits { timeout_seconds: Some(2), max_memory_mb: None, cpu_quota: None },
        jitter_seconds: 0,
        timezone: None,
        tags: vec![],
        dependencies: vec![],
        hooks: JobHooks::default(),
        max_concurrent: 0,
        priority: JobPriority::default(),
        execution_mode: ExecutionMode::default(),
        notification_config: NotificationConfig::default(),
    }
}

#[test]
fn command_lines() {
    assert_eq!(command_line(&job("/bin/true", &[], "root")), "/bin/true");
    assert_eq!(command_line(&job("/bin/sleep", &["60"], "root")), "/bin/sleep 60");
    assert_eq!(command_line(&job("echo", &["a", "b c", "d"], "root")), "echo a b c d");
}

#[test]
fn spawn_runs_the_shell_as_the_owner() {
    assert_eq!(
        spawn_args(&job("/bin/sleep", &["60"], "root")),
        vec!["-u", "root", "/bin/sh", "-c", "/bin/sleep 60"]
    );
    assert_eq!(spawn_args(&job("ls", &[], ""))[1], "lunasched");
}

#[test]
fn output_is_combined() {
    assert_eq!(combined_output("out", "err"), "Stdout:\nout\nStderr:\nerr");
}

#[test]
fn timeout_terminates_then_kills() {
    let mut state = TimeoutState::Start;
    let mut slept = 0;
    let mut actions = vec![];
    loop {
        let (next, action) = timeout_step(state, 2, true);
        state = next;
        match action {
            TimeoutAction::Sleep(n) => slept += n,
            TimeoutAction::Stop => break,
            other => actions.push(other),
        }
        if state == TimeoutState::Finished && action == TimeoutAction::SendKill {
            break;
        }
    }
    assert_eq!(actions, vec![TimeoutAction::SendTerm, TimeoutAction::SendKill]);
    assert!(slept <= 5);
}

#[test]
fn timeout_stops_when_the_process_is_gone() {
    let (state, action) = timeout_step(TimeoutState::Start, 2, true);
    assert_eq!(action, TimeoutAction::Sleep(2));
    assert_eq!(timeout_step(state, 2, false), (TimeoutState::Finished, TimeoutAction::Stop));
}

#[test]
fn a_killed_run_is_recorded_as_failed() {
    let mut s = Scheduler::new();
    let e = job("/bin/sleep", &["60"], "root");
    s.add_job(e.clone());
    assert_eq!(s.tick(1_704_722_400_000).len(), 1);
    let action = s.complete_job(
        &e,
        RunOutcome::Exited { success: false, exit_code: -1, output: combined_output("", "") },
        1_704_722_404_000,
    );
    assert_eq!(action.history.unwrap().status, RunStatus::Failed);
}

#[test]
fn advisory_limits_in_the_environment() {
    let env = limit_env(&ResourceLimits { timeout_seconds: None, max_memory_mb: Some(512), cpu_quota: Some(500) });
    assert_eq!(
        env,
        vec![
            KeyValue { key: "LUNASCHED_MAX_MEMORY_MB".to_string(), value: "512".to_string() },
            KeyValue { key: "LUNASCHED_CPU_QUOTA".to_string(), value: "0.5".to_string() },
        ]
    );
    assert_eq!(cpu_quota_text(1000), "1");
    assert_eq!(cpu_quota_text(1250), "1.25");
    assert_eq!(cpu_quota_text(5), "0.005");
    assert_eq!(cpu_quota_text(2040), "2.04");
    assert!(limit_env(&ResourceLimits::default()).is_empty());
}
