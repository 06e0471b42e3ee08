use vstd::prelude::*;

verus! {

/// The identifier of a job: an opaque, non-empty string.
#[derive(Debug, PartialEq, Eq, Hash)]
pub struct JobId(pub String);

impl Clone for JobId {
    fn clone(&self) -> (r: Self)
        ensures
            r == *self,
    {
        JobId(self.0.clone())
    }
}

/// A name and a value: an environment variable, or a header of a web request.
#[derive(Debug, PartialEq, Eq)]
pub struct KeyValue {
    pub key: String,
    pub value: String,
}

impl Clone for KeyValue {
    fn clone(&self) -> (r: Self)
        ensures
            r == *self,
    {
        KeyValue { key: self.key.clone(), value: self.value.clone() }
    }
}

/// Two optional vectors hold the same elements.
pub open spec fn same_opt_vec<T>(a: Option<Vec<T>>, b: Option<Vec<T>>) -> bool {
    match (a, b) {
        (Some(x), Some(y)) => x@ == y@,
        (None, None) => true,
        _ => false,
    }
}

pub fn clone_opt_vec<T: Copy>(v: &Option<Vec<T>>) -> (r: Option<Vec<T>>)
    ensures
        same_opt_vec(r, *v),
{
    match v {
        Some(x) => {
            let mut out: Vec<T> = Vec::new();
            let mut i: usize = 0;
            while i < x.len()
                invariant
                    0 <= i <= x.len(),
                    out@ == x@.subrange(0, i as int),
                decreases x.len() - i,
            {
                out.push(x[i]);
                i = i + 1;
                proof {
                    assert(out@ =~= x@.subrange(0, i as int));
                }
            }
            proof {
                assert(out@ =~= x@);
            }
            Some(out)
        },
        None => None,
    }
}

pub fn clone_strings(v: &Vec<String>) -> (r: Vec<String>)
    ensures
        r@ == v@,
{
    let r = v.clone();
    proof {
        assert(r@ =~= v@);
    }
    r
}

pub fn clone_pairs(v: &Vec<KeyValue>) -> (r: Vec<KeyValue>)
    ensures
        r@ == v@,
{
    let r = v.clone();
    proof {
        assert(r@ =~= v@);
    }
    r
}

pub fn clone_opt_pairs(v: &Option<Vec<KeyValue>>) -> (r: Option<Vec<KeyValue>>)
    ensures
        same_opt_vec(r, *v),
{
    match v {
        Some(x) => Some(clone_pairs(x)),
        None => None,
    }
}

pub fn clone_ids(v: &Vec<JobId>) -> (r: Vec<JobId>)
    ensures
        r@ == v@,
{
    let r = v.clone();
    proof {
        assert(r@ =~= v@);
    }
    r
}

/// A calendar rule: a time of day and at most one day filter.
/// Weekdays are numbered from Monday = 1 to Sunday = 7.
#[derive(Debug, PartialEq, Eq)]
pub struct CalendarParams {
    pub days_of_week: Option<Vec<u32>>,
    pub nth_weekday: Option<(u32, u32)>,
    pub time: (u32, u32, u32),
}

/// The mathematical content of a calendar rule.
pub struct CalendarView {
    pub days_of_week: Option<Seq<u32>>,
    pub nth_weekday: Option<(u32, u32)>,
    pub time: (u32, u32, u32),
}

impl View for CalendarParams {
    type V = CalendarView;

    open spec fn view(&self) -> CalendarView {
        CalendarView {
            days_of_week: match self.days_of_week {
                Some(d) => Some(d@),
                None => None,
            },
            nth_weekday: self.nth_weekday,
            time: self.time,
        }
    }
}

/// The mathematical content of a schedule.
pub enum ScheduleView {
    Cron(Seq<char>),
    Every(u64),
    Calendar(CalendarView),
}

impl View for ScheduleConfig {
    type V = ScheduleView;

    open spec fn view(&self) -> ScheduleView {
        match self {
            ScheduleConfig::Cron(s) => ScheduleView::Cron(s@),
            ScheduleConfig::Every(n) => ScheduleView::Every(*n),
            ScheduleConfig::Calendar(p) => ScheduleView::Calendar(p@),
        }
    }
}

impl CalendarParams {
    pub open spec fn same(&self, o: &CalendarParams) -> bool {
        &&& same_opt_vec(self.days_of_week, o.days_of_week)
        &&& self.nth_weekday == o.nth_weekday
        &&& self.time == o.time
    }
}

impl Clone for CalendarParams {
    fn clone(&self) -> (r: Self)
        ensures
            r.same(self),
    {
        CalendarParams {
            days_of_week: clone_opt_vec(&self.days_of_week),
            nth_weekday: self.nth_weekday,
            time: self.time,
        }
    }
}

/// When a job fires.
#[derive(Debug, PartialEq, Eq)]
pub enum ScheduleConfig {
    Cron(String),
    Every(u64),
    Calendar(CalendarParams),
}

impl ScheduleConfig {
    pub open spec fn same(&self, o: &ScheduleConfig) -> bool {
        match (self, o) {
            (ScheduleConfig::Cron(a), ScheduleConfig::Cron(b)) => a == b,
            (ScheduleConfig::Every(a), ScheduleConfig::Every(b)) => a == b,
            (ScheduleConfig::Calendar(a), ScheduleConfig::Calendar(b)) => a.same(b),
            _ => false,
        }
    }
}

impl Clone for ScheduleConfig {
    fn clone(&self) -> (r: Self)
        ensures
            r.same(self),
    {
        match self {
            ScheduleConfig::Cron(s) => ScheduleConfig::Cron(s.clone()),
            ScheduleConfig::Every(n) => ScheduleConfig::Every(*n),
            ScheduleConfig::Calendar(p) => ScheduleConfig::Calendar(p.clone()),
        }
    }
}

/// How the delay between a failed attempt and the next one grows.
#[derive(Debug, Clone, Copy, PartialEq, Eq, Structural)]
pub enum BackoffStrategy {
    Fixed,
    Linear,
    Exponential,
}

/// How often, and how far apart, a failed job is tried again.
#[derive(Debug, Clone, Copy, PartialEq, Eq, Structural)]
pub struct RetryPolicy {
    pub max_attempts: u32,
    pub backoff_strategy: BackoffStrategy,
    pub initial_delay_seconds: u64,
    pub max_delay_seconds: u64,
}

impl Default for RetryPolicy {
    /// No retries; should some be configured, exponential from one minute
    /// up to an hour.
    fn default() -> (r: Self)
        ensures
            r.max_attempts == 0,
            r.backoff_strategy == BackoffStrategy::Exponential,
            r.initial_delay_seconds == 60,
            r.max_delay_seconds == 3600,
    {
        RetryPolicy {
            max_attempts: 0,
            backoff_strategy: BackoffStrategy::Exponential,
            initial_delay_seconds: 60,
            max_delay_seconds: 3600,
        }
    }
}

/// Limits on a run. Only the timeout is enforced; the others are exposed to
/// the command. `cpu_quota` is in thousandths of one core.
#[derive(Debug, Clone, Copy, PartialEq, Eq, Structural)]
pub struct ResourceLimits {
    pub timeout_seconds: Option<u64>,
    pub max_memory_mb: Option<u64>,
    pub cpu_quota: Option<u32>,
}

impl Default for ResourceLimits {
    fn default() -> (r: Self)
        ensures
            r.timeout_seconds.is_none(),
            r.max_memory_mb.is_none(),
            r.cpu_quota.is_none(),
    {
        ResourceLimits { timeout_seconds: None, max_memory_mb: None, cpu_quota: None }
    }
}

/// Shell commands run after a successful run, or after the last failed one.
#[derive(Debug, PartialEq, Eq)]
pub struct JobHooks {
    pub on_failure: Option<String>,
    pub on_success: Option<String>,
}

impl Clone for JobHooks {
    fn clone(&self) -> (r: Self)
        ensures
            r == *self,
    {
        JobHooks { on_failure: self.on_failure.clone(), on_success: self.on_success.clone() }
    }
}

impl Default for JobHooks {
    fn default() -> (r: Self)
        ensures
            r.on_failure.is_none(),
            r.on_success.is_none(),
    {
        JobHooks { on_failure: None, on_success: None }
    }
}

#[derive(Debug, Clone, Copy, PartialEq, Eq, Structural)]
pub enum JobPriority {
    Low,
    Normal,
    High,
    Critical,
}

impl Default for JobPriority {
    fn default() -> (r: Self)
        ensures
            r == JobPriority::Normal,
    {
        JobPriority::Normal
    }
}

/// Carried in the model; every job is run as `Sequential`.
#[derive(Debug, Clone, Copy, PartialEq, Eq, Structural)]
pub enum ExecutionMode {
    Sequential,
    Parallel,
    Exclusive,
}

impl Default for ExecutionMode {
    fn default() -> (r: Self)
        ensures
            r == ExecutionMode::Sequential,
    {
        ExecutionMode::Sequential
    }
}

/// Where a notification about a job goes.
#[derive(Debug, PartialEq, Eq)]
pub enum NotificationChannel {
    Email { to: String, subject: Option<String> },
    Webhook { url: String, headers: Option<Vec<KeyValue>> },
    Discord { webhook_url: String },
    Slack { webhook_url: String },
}

impl NotificationChannel {
    pub open spec fn same(&self, o: &NotificationChannel) -> bool {
        match (self, o) {
            (
                NotificationChannel::Email { to: a, subject: s },
                NotificationChannel::Email { to: b, subject: t },
            ) => a == b && s == t,
            (
                NotificationChannel::Webhook { url: a, headers: h },
                NotificationChannel::Webhook { url: b, headers: k },
            ) => a == b && same_opt_vec(*h, *k),
            (
                NotificationChannel::Discord { webhook_url: a },
                NotificationChannel::Discord { webhook_url: b },
            ) => a == b,
            (
                NotificationChannel::Slack { webhook_url: a },
                NotificationChannel::Slack { webhook_url: b },
            ) => a == b,
            _ => false,
        }
    }
}

impl Clone for NotificationChannel {
    fn clone(&self) -> (r: Self)
        ensures
            r.same(self),
    {
        match self {
            NotificationChannel::Email { to, subject } => NotificationChannel::Email {
                to: to.clone(),
                subject: subject.clone(),
            },
            NotificationChannel::Webhook { url, headers } => NotificationChannel::Webhook {
                url: url.clone(),
                headers: clone_opt_pairs(headers),
            },
            NotificationChannel::Discord { webhook_url } => NotificationChannel::Discord {
                webhook_url: webhook_url.clone(),
            },
            NotificationChannel::Slack { webhook_url } => NotificationChannel::Slack {
                webhook_url: webhook_url.clone(),
            },
        }
    }
}

/// Two optional lists of channels that hold the same channels in the same order.
pub open spec fn same_channels(
    a: Option<Vec<NotificationChannel>>,
    b: Option<Vec<NotificationChannel>>,
) -> bool {
    match (a, b) {
        (Some(x), Some(y)) => x@.len() == y@.len() && forall|i: int|
            0 <= i < x@.len() ==> (#[trigger] x@[i]).same(&y@[i]),
        (None, None) => true,
        _ => false,
    }
}

pub fn clone_channels(v: &Option<Vec<NotificationChannel>>) -> (r: Option<
    Vec<NotificationChannel>,
>)
    ensures
        same_channels(r, *v),
{
    match v {
        Some(x) => {
            let mut out: Vec<NotificationChannel> = Vec::new();
            let mut i: usize = 0;
            while i < x.len()
                invariant
                    0 <= i <= x.len(),
                    out@.len() == i,
                    forall|j: int| 0 <= j < i ==> (#[trigger] out@[j]).same(&x@[j]),
                decreases x.len() - i,
            {
                out.push(x[i].clone());
                i = i + 1;
            }
            Some(out)
        },
        None => None,
    }
}

/// Who is told about a job's events, per event.
#[derive(Debug, PartialEq, Eq)]
pub struct NotificationConfig {
    pub on_success: Option<Vec<NotificationChannel>>,
    pub on_failure: Option<Vec<NotificationChannel>>,
    pub on_start: Option<Vec<NotificationChannel>>,
}

impl NotificationConfig {
    pub open spec fn same(&self, o: &NotificationConfig) -> bool {
        &&& same_channels(self.on_success, o.on_success)
        &&& same_channels(self.on_failure, o.on_failure)
        &&& same_channels(self.on_start, o.on_start)
    }
}

impl Clone for NotificationConfig {
    fn clone(&self) -> (r: Self)
        ensures
            r.same(self),
    {
        NotificationConfig {
            on_success: clone_channels(&self.on_success),
            on_failure: clone_channels(&self.on_failure),
            on_start: clone_channels(&self.on_start),
        }
    }
}

impl Default for NotificationConfig {
    fn default() -> (r: Self)
        ensures
            r.on_success.is_none(),
            r.on_failure.is_none(),
            r.on_start.is_none(),
    {
        NotificationConfig { on_success: None, on_failure: None, on_start: None }
    }
}

/// A job definition. `env` maps names to values; a later entry for a name
/// overrides an earlier one when the command is started.
#[derive(Debug, PartialEq, Eq)]
pub struct Job {
    pub id: JobId,
    pub name: String,
    pub schedule: ScheduleConfig,
    pub command: String,
    pub args: Vec<String>,
    pub env: Vec<KeyValue>,
    pub enabled: bool,
    pub owner: String,
    pub retry_policy: RetryPolicy,
    pub resource_limits: ResourceLimits,
    pub jitter_seconds: u64,
    pub timezone: Option<String>,
    pub tags: Vec<String>,
    pub dependencies: Vec<JobId>,
    pub hooks: JobHooks,
    pub max_concurrent: u32,
    pub priority: JobPriority,
    pub execution_mode: ExecutionMode,
    pub notification_config: NotificationConfig,
}

impl Job {
    /// Two jobs hold the same definition, field by field.
    pub open spec fn same(&self, o: &Job) -> bool {
        &&& self.id == o.id
        &&& self.name == o.name
        &&& self.schedule.same(&o.schedule)
        &&& self.command == o.command
        &&& self.args@ == o.args@
        &&& self.env@ == o.env@
        &&& self.enabled == o.enabled
        &&& self.owner == o.owner
        &&& self.retry_policy == o.retry_policy
        &&& self.resource_limits == o.resource_limits
        &&& self.jitter_seconds == o.jitter_seconds
        &&& self.timezone == o.timezone
        &&& self.tags@ == o.tags@
        &&& self.dependencies@ == o.dependencies@
        &&& self.hooks == o.hooks
        &&& self.max_concurrent == o.max_concurrent
        &&& self.priority == o.priority
        &&& self.execution_mode == o.execution_mode
        &&& self.notification_config.same(&o.notification_config)
    }
}

impl Clone for Job {
    fn clone(&self) -> (r: Self)
        ensures
            r.same(self),
    {
        Job {
            id: self.id.clone(),
            name: self.name.clone(),
            schedule: self.schedule.clone(),
            command: self.command.clone(),
            args: clone_strings(&self.args),
            env: clone_pairs(&self.env),
            enabled: self.enabled,
            owner: self.owner.clone(),
            retry_policy: self.retry_policy,
            resource_limits: self.resource_limits,
            jitter_seconds: self.jitter_seconds,
            timezone: self.timezone.clone(),
            tags: clone_strings(&self.tags),
            dependencies: clone_ids(&self.dependencies),
            hooks: self.hooks.clone(),
            max_concurrent: self.max_concurrent,
            priority: self.priority,
            execution_mode: self.execution_mode,
            notification_config: self.notification_config.clone(),
        }
    }
}

/// The state of a job as a client sees it.
#[derive(Debug, Clone, Copy, PartialEq, Eq, Structural)]
pub enum JobStatus {
    Pending,
    Running(u32),
    Failed(i32),
    Success,
}

} // verus!
