use lunasched::control::{owner_label, Followup};
use lunasched::running::running_get;
use lunasched::{
    ExecutionMode, Job, JobHooks, JobId, JobPriority, NotificationConfig, Request, ResourceLimits,
    Response, RetryPolicy, ScheduleConfig, Scheduler,
};

const T0: i64 = 1_704_722_400_000;

fn job(id: &str, claimed_owner: &str) -> Job {
    Job {
        id: JobId(id.to_string()),
        name: id.to_string(),
        schedule: ScheduleConfig::Every(60),
        command: "/bin/true".to_string(),
        args: vec![],
        env: vec![],
        enabled: true,
        owner: claimed_owner.to_string(),
        retry_policy: RetryPolicy::default(),
        resource_limits: ResourceLimits::default(),
        jitter_seconds: 0,
        timezone: None,
        tags: vec![],
        dependencies: vec![],
        hooks: JobHooks::default(),
        max_concurrent: 0,
        priority: JobPriority::default(),
        execution_mode: ExecutionMode::default(),
        notification_config: NotificationConfig::default(),
    }
}

fn error(text: &str) -> Option<Response> {
    Some(Response::Error(text.to_string()))
}

#[test]
fn owner_labels() {
    assert_eq!(owner_label(0), "root");
    assert_eq!(owner_label(1000), "lunasched");
}

#[test]
fn ownership_is_enforced() {
    let mut s = Scheduler::new();
    let (resp, follow) = s.handle_request(0, Request::AddJob(job("d", "mallory")), T0);
    assert_eq!(resp, Some(Response::Accepted));
    match follow {
        Followup::PersistJob(j) => assert_eq!(j.owner, "root"),
        other => panic!("unexpected follow-up {:?}", other),
    }
    assert_eq!(s.jobs.get("d").unwrap().owner, "root");

    let (resp, follow) = s.handle_request(1000, Request::RemoveJob(JobId("d".to_string())), T0);
    assert_eq!(resp, error("Permission denied: Cannot remove job owned by root"));
    assert_eq!(follow, Followup::Nothing);

    let (resp, _) = s.handle_request(1000, Request::AddJob(job("d", "root")), T0);
    assert_eq!(resp, error("Permission denied: Cannot overwrite job owned by root"));
    assert_eq!(s.jobs.get("d").unwrap().owner, "root");

    let (resp, _) = s.handle_request(1000, Request::StartJob(JobId("d".to_string())), T0);
    assert_eq!(resp, error("Permission denied: Cannot start job owned by root"));
}

#[test]
fn a_service_user_job_can_be_changed_by_its_owner_and_root() {
    let mut s = Scheduler::new();
    let (resp, _) = s.handle_request(1000, Request::AddJob(job("e", "root")), T0);
    assert_eq!(resp, Some(Response::Accepted));
    assert_eq!(s.jobs.get("e").unwrap().owner, "lunasched");
    let (resp, _) = s.handle_request(1001, Request::AddJob(job("e", "x")), T0);
    assert_eq!(resp, Some(Response::Accepted));
    let (resp, follow) = s.handle_request(0, Request::RemoveJob(JobId("e".to_string())), T0);
    assert_eq!(resp, Some(Response::Accepted));
    assert_eq!(follow, Followup::DeleteJob("e".to_string()));
    assert!(s.jobs.get("e").is_none());
}

#[test]
fn unknown_jobs_are_reported() {
    let mut s = Scheduler::new();
    let (resp, _) = s.handle_request(0, Request::RemoveJob(JobId("nope".to_string())), T0);
    assert_eq!(resp, error("Job not found"));
    let (resp, _) = s.handle_request(0, Request::StartJob(JobId("nope".to_string())), T0);
    assert_eq!(resp, error("Job not found"));
    let (resp, _) = s.handle_request(0, Request::GetJob(JobId("nope".to_string())), T0);
    assert_eq!(resp, Some(Response::JobDetail(None)));
}

#[test]
fn start_installs_a_context_once() {
    let mut s = Scheduler::new();
    s.handle_request(0, Request::AddJob(job("a", "")), T0);
    let (resp, follow) = s.handle_request(0, Request::StartJob(JobId("a".to_string())), T0);
    assert_eq!(resp, Some(Response::Accepted));
    match follow {
        Followup::Run(j) => assert_eq!(j.id, JobId("a".to_string())),
        other => panic!("unexpected follow-up {:?}", other),
    }
    let ctx = running_get(&s.running_jobs, "a").unwrap();
    assert_eq!(ctx.scheduled_time, T0);
    let (resp, _) = s.handle_request(0, Request::StartJob(JobId("a".to_string())), T0 + 1);
    assert_eq!(resp, error("Job is already running"));
    assert_eq!(s.tick(T0 + 1).len(), 0);
}

#[test]
fn listing_and_history_requests() {
    let mut s = Scheduler::new();
    s.handle_request(0, Request::AddJob(job("a", "")), T0);
    s.handle_request(0, Request::AddJob(job("b", "")), T0);
    match s.handle_request(0, Request::ListJobs, T0).0 {
        Some(Response::JobList(jobs)) => {
            let mut ids: Vec<String> = jobs.into_iter().map(|j| j.id.0).collect();
            ids.sort();
            assert_eq!(ids, vec!["a".to_string(), "b".to_string()]);
        },
        other => panic!("unexpected response {:?}", other),
    }
    let (resp, follow) = s.handle_request(
        1000,
        Request::GetHistory { job_id: JobId("a".to_string()), limit: Some(5) },
        T0,
    );
    assert_eq!(resp, None);
    assert_eq!(follow, Followup::QueryHistory { job_id: "a".to_string(), limit: Some(5) });
}
