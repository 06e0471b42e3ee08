use vstd::prelude::*;

use crate::backoff::{backoff_delay, calculate_backoff_delay};
use crate::chance::{draw_below, is_execution_id, new_execution_id};
use crate::clock::{
    civil_time_in_zone, civil_time_on_host, cron_first_after, cron_next_after, zone_civil_time,
    reading_in_range, within_horizon, CivilTime, CLOCK_HORIZON_MS,
};
use crate::evaluate::{
    calendar_fire, calendar_fire_at, cron_expression_with_seconds, cron_fire, cron_start,
    cron_start_of, cron_with_seconds, every_fire, every_fire_at,
};
use crate::job::{Job, ScheduleConfig};
use crate::running::{
    running_contains, running_entries, running_get, running_insert, running_new, running_remove,
    JobExecutionContext, RunningMap,
};
use crate::table::{lemma_entry_lookup, KeyedTable};

verus! {

/// A pending retry of a job: the number of the failed attempts so far, and
/// when the next attempt is due (milliseconds after the Unix epoch).
#[derive(Debug, Clone, Copy, PartialEq, Eq, Structural)]
pub struct RetryState {
    pub attempt: u32,
    pub next_attempt_at: Option<i64>,
}

/// What a tick learned from outside the scheduler about one job: the cron
/// schedule's next instant, the wall-clock readings of now and of the job's
/// last window, and the jitter drawn.
#[derive(Debug, Clone, Copy, PartialEq, Eq, Structural)]
pub struct Observation {
    pub cron_next: Option<i64>,
    pub now_local: Option<CivilTime>,
    pub window_local: Option<CivilTime>,
    pub jitter_ms: u64,
}

pub open spec fn lookup<V>(m: Map<Seq<char>, V>, k: Seq<char>) -> Option<V> {
    if m.contains_key(k) {
        Some(m[k])
    } else {
        None
    }
}

/// The jitter, in milliseconds, stays below this bound.
pub open spec fn jitter_bound(seconds: u64) -> u64 {
    if seconds * 1000 <= u64::MAX {
        (seconds * 1000) as u64
    } else {
        u64::MAX
    }
}

/// An instant moved later by `j` milliseconds, held within `i64`.
pub open spec fn jittered(t: int, j: u64) -> i64 {
    if t + j <= i64::MAX {
        (t + j) as i64
    } else {
        i64::MAX
    }
}

/// The reading of an instant in a named zone, where the instant lies within
/// the clock horizon.
pub open spec fn zone_reading(zone: Seq<char>, ms: i64) -> Option<CivilTime> {
    if within_horizon(ms) {
        zone_civil_time(zone, ms as int)
    } else {
        None
    }
}

/// `obs` is what the outside calls may have returned for `job` at `now`.
/// Cron instants and readings in a named zone depend on their arguments
/// alone; of readings in the host's zone only their ranges are known.
pub open spec fn observed(
    job: Job,
    last_run: Option<i64>,
    last_window: Option<i64>,
    now: i64,
    obs: Observation,
) -> bool {
    &&& match job.schedule {
        ScheduleConfig::Cron(e) => {
            &&& obs.cron_next == if cron_start(last_run, now) <= CLOCK_HORIZON_MS {
                cron_first_after(cron_with_seconds(e@), cron_start(last_run, now))
            } else {
                None
            }
            &&& obs.cron_next matches Some(t) ==> cron_start(last_run, now) < t
        },
        _ => true,
    }
    &&& (last_window is None ==> obs.window_local is None)
    &&& (!within_horizon(now) ==> obs.now_local is None)
    &&& (obs.now_local matches Some(t) ==> reading_in_range(t))
    &&& (obs.window_local matches Some(t) ==> reading_in_range(t))
    &&& match (job.schedule, job.timezone) {
        (ScheduleConfig::Calendar(_), Some(z)) => zone_reading(z@, now) is Some ==> {
            &&& obs.now_local == zone_reading(z@, now)
            &&& match last_window {
                Some(w) => obs.window_local == zone_reading(z@, w),
                None => true,
            }
        },
        _ => true,
    }
    &&& if job.jitter_seconds == 0 {
        obs.jitter_ms == 0
    } else {
        obs.jitter_ms < jitter_bound(job.jitter_seconds)
    }
}

/// The instant a job fires for, before jitter, or `None` where it is not due.
pub open spec fn base_fire(job: Job, last_run: Option<i64>, now: i64, obs: Observation) -> Option<
    int,
> {
    match job.schedule {
        ScheduleConfig::Cron(_) => cron_fire(obs.cron_next, now),
        ScheduleConfig::Every(s) => every_fire(last_run, s, now),
        ScheduleConfig::Calendar(p) => calendar_fire(p, obs.now_local, obs.window_local, now),
    }
}

/// One of the jobs has id `k`.
pub open spec fn has_id(jobs: Seq<Job>, k: Seq<char>) -> bool {
    exists|x: int| 0 <= x < jobs.len() && (#[trigger] jobs[x]).id.0@ == k
}

pub open spec fn ids_unique(jobs: Seq<Job>) -> bool {
    forall|a: int, b: int|
        0 <= a < jobs.len() && 0 <= b < jobs.len() && (#[trigger] jobs[a]).id.0@ == (
        #[trigger] jobs[b]).id.0@ ==> a == b
}

/// What a tick leaves for a job that it judged by its schedule, given the
/// instant the schedule selected (`fire`) and the jitter drawn.
pub open spec fn fire_outcome(
    fire: Option<int>,
    jitter_ms: u64,
    now: i64,
    in_due: bool,
    last_run: Option<i64>,
    window: Option<i64>,
    ctx: Option<JobExecutionContext>,
    old_last_run: Option<i64>,
    old_window: Option<i64>,
) -> bool {
    match fire {
        None => !in_due && last_run == old_last_run && window == old_window && ctx is None,
        Some(t) => {
            &&& in_due
            &&& last_run == Some(jittered(t, jitter_ms))
            &&& window == last_run
            &&& ctx matches Some(c) && c.scheduled_time == jittered(t, jitter_ms) && c.start_time
                == now && c.pid is None && is_execution_id(c.execution_id@)
        },
    }
}

/// What a tick at `now` from state `old` leaves for job id `k`: whether `k`
/// is among the jobs handed out, its last fire instant, its last window and
/// its execution context.
pub open spec fn key_outcome(
    old: Scheduler,
    k: Seq<char>,
    now: i64,
    in_due: bool,
    last_run: Option<i64>,
    window: Option<i64>,
    ctx: Option<JobExecutionContext>,
) -> bool {
    let old_last_run = lookup(old.last_runs@, k);
    let old_window = lookup(old.last_execution_windows@, k);
    if old.retry_due(k, now) {
        &&& in_due
        &&& last_run == old_last_run
        &&& window == old_window
        &&& ctx matches Some(c) && c.scheduled_time == now && c.start_time == now && c.pid is None
            && is_execution_id(c.execution_id@)
    } else if old.schedule_eligible(k, now) {
        exists|obs: Observation|
            #[trigger] observed(old.jobs@[k], old_last_run, old_window, now, obs) && fire_outcome(
                base_fire(old.jobs@[k], old_last_run, now, obs),
                obs.jitter_ms,
                now,
                in_due,
                last_run,
                window,
                ctx,
                old_last_run,
                old_window,
            )
    } else {
        &&& !in_due
        &&& last_run == old_last_run
        &&& window == old_window
        &&& ctx == lookup(old.running(), k)
    }
}

/// The relation between the state before a tick, the state after it and the
/// jobs it hands out.
pub open spec fn tick_result(old: Scheduler, fin: Scheduler, due: Seq<Job>, now: i64) -> bool {
    &&& fin.wf()
    &&& fin.jobs@ == old.jobs@
    &&& fin.retry_state@ == old.retry_state@
    &&& ids_unique(due)
    &&& forall|x: int|
        0 <= x < due.len() ==> {
            &&& old.jobs@.contains_key((#[trigger] due[x]).id.0@)
            &&& due[x].same(&old.jobs@[due[x].id.0@])
            &&& !old.running().contains_key(due[x].id.0@)
        }
    &&& forall|k: Seq<char>|
        #![trigger lookup(fin.running(), k)]
        key_outcome(
            old,
            k,
            now,
            has_id(due, k),
            lookup(fin.last_runs@, k),
            lookup(fin.last_execution_windows@, k),
            lookup(fin.running(), k),
        )
}

/// The scheduled instant moved later by the jitter, held within `i64`.
pub fn apply_jitter(t: i64, j: u64) -> (r: i64)
    ensures
        r == jittered(t as int, j),
{
    let sum: i128 = t as i128 + j as i128;
    if sum <= i64::MAX as i128 {
        sum as i64
    } else {
        i64::MAX
    }
}

/// The instant a job fires for, before jitter.
pub fn plan_fire(job: &Job, last_run: Option<i64>, now: i64, obs: &Observation) -> (r: Option<i64>)
    ensures
        r matches Some(t) ==> base_fire(*job, last_run, now, *obs) == Some(t as int),
        r is None ==> base_fire(*job, last_run, now, *obs) is None,
{
    match &job.schedule {
        ScheduleConfig::Cron(_) => match obs.cron_next {
            Some(n) => if n <= now {
                Some(n)
            } else {
                None
            },
            None => None,
        },
        ScheduleConfig::Every(s) => every_fire_at(last_run, *s, now),
        ScheduleConfig::Calendar(p) => calendar_fire_at(p, obs.now_local, obs.window_local, now),
    }
}

/// The reading of an instant in a named zone, asked only within the horizon.
pub fn zone_reading_at(zone: &str, ms: i64) -> (r: Option<CivilTime>)
    ensures
        r == zone_reading(zone@, ms),
        r matches Some(t) ==> reading_in_range(t),
{
    if -CLOCK_HORIZON_MS <= ms && ms <= CLOCK_HORIZON_MS {
        civil_time_in_zone(zone, ms)
    } else {
        None
    }
}

/// The reading of an instant in the host's zone, asked only within the horizon.
pub fn host_reading_at(ms: i64) -> (r: Option<CivilTime>)
    ensures
        !within_horizon(ms) ==> r is None,
        r matches Some(t) ==> reading_in_range(t),
{
    if -CLOCK_HORIZON_MS <= ms && ms <= CLOCK_HORIZON_MS {
        civil_time_on_host(ms)
    } else {
        None
    }
}

/// Asks the outside calls what a job's schedule needs: the cron schedule's
/// next instant, or the wall-clock readings of now and of the last window.
pub fn observe(job: &Job, last_run: Option<i64>, last_window: Option<i64>, now: i64) -> (obs:
    Observation)
    ensures
        observed(*job, last_run, last_window, now, obs),
        obs.jitter_ms == 0,
{
    match &job.schedule {
        ScheduleConfig::Cron(e) => {
            let expr = cron_expression_with_seconds(e.as_str());
            let start = cron_start_of(last_run, now);
            let next = if start <= CLOCK_HORIZON_MS {
                cron_next_after(expr.as_str(), start)
            } else {
                None
            };
            Observation { cron_next: next, now_local: None, window_local: None, jitter_ms: 0 }
        },
        ScheduleConfig::Every(_) => Observation {
            cron_next: None,
            now_local: None,
            window_local: None,
            jitter_ms: 0,
        },
        ScheduleConfig::Calendar(_) => {
            let zoned = match &job.timezone {
                Some(z) => match zone_reading_at(z.as_str(), now) {
                    Some(t) => {
                        let w = match last_window {
                            Some(lw) => zone_reading_at(z.as_str(), lw),
                            None => None,
                        };
                        Some((t, w))
                    },
                    None => None,
                },
                None => None,
            };
            match zoned {
                Some((t, w)) => Observation {
                    cron_next: None,
                    now_local: Some(t),
                    window_local: w,
                    jitter_ms: 0,
                },
                None => {
                    let t = host_reading_at(now);
                    let w = match last_window {
                        Some(lw) => host_reading_at(lw),
                        None => None,
                    };
                    Observation { cron_next: None, now_local: t, window_local: w, jitter_ms: 0 }
                },
            }
        },
    }
}

/// How a run ended: its process exited (`success` where the status was
/// zero), waiting for it failed, or it could not be spawned.
#[derive(Debug, PartialEq, Eq)]
pub enum RunOutcome {
    Exited { success: bool, exit_code: i32, output: String },
    WaitFailed(String),
    SpawnFailed(String),
}

/// The status a history row records.
#[derive(Debug, Clone, Copy, PartialEq, Eq, Structural)]
pub enum RunStatus {
    Success,
    Failed,
    Error,
    SpawnError,
}

impl RunStatus {
    pub open spec fn text(&self) -> Seq<char> {
        match self {
            RunStatus::Success => seq!['s', 'u', 'c', 'c', 'e', 's', 's'],
            RunStatus::Failed => seq!['f', 'a', 'i', 'l', 'e', 'd'],
            RunStatus::Error => seq!['E', 'r', 'r', 'o', 'r'],
            RunStatus::SpawnError => seq!['S', 'p', 'a', 'w', 'n', 'E', 'r', 'r', 'o', 'r'],
        }
    }

    /// The status as the history table stores it.
    pub fn as_str(&self) -> (r: &'static str)
        ensures
            r@ == self.text(),
    {
        match self {
            RunStatus::Success => {
                proof {
                    reveal_strlit("success");
                }
                "success"
            },
            RunStatus::Failed => {
                proof {
                    reveal_strlit("failed");
                }
                "failed"
            },
            RunStatus::Error => {
                proof {
                    reveal_strlit("Error");
                }
                "Error"
            },
            RunStatus::SpawnError => {
                proof {
                    reveal_strlit("SpawnError");
                }
                "SpawnError"
            },
        }
    }
}

/// A history row to persist.
#[derive(Debug, PartialEq, Eq)]
pub struct HistoryRecord {
    pub status: RunStatus,
    pub output: String,
}

/// A retry row to persist: the number of the attempt to come, when it is due,
/// and the exit code of the failed one.
#[derive(Debug, Clone, Copy, PartialEq, Eq, Structural)]
pub struct RetryRecord {
    pub attempt: u32,
    pub next_retry_at: i64,
    pub exit_code: i32,
}

/// What the caller does once a run has been recorded: persist a history row
/// or a retry row, and run a hook command.
#[derive(Debug, PartialEq, Eq)]
pub struct CompletionAction {
    pub history: Option<HistoryRecord>,
    pub retry: Option<RetryRecord>,
    pub hook: Option<String>,
}

/// The number of failed attempts recorded for job `k`.
pub open spec fn attempts_of(retry: Map<Seq<char>, RetryState>, k: Seq<char>) -> u32 {
    if retry.contains_key(k) {
        retry[k].attempt
    } else {
        0
    }
}

/// `now` moved later by `delay` seconds, held within `i64`.
pub open spec fn retry_instant(now: i64, delay: int) -> i64 {
    if now + delay * 1000 <= i64::MAX {
        (now + delay * 1000) as i64
    } else {
        i64::MAX
    }
}

/// What recording the outcome of a run of `job` at `now` does to the pending
/// retries and asks the caller to do.
pub open spec fn completion_result(
    job: Job,
    outcome: RunOutcome,
    now: i64,
    old_retry: Map<Seq<char>, RetryState>,
    retry: Map<Seq<char>, RetryState>,
    r: CompletionAction,
) -> bool {
    let id = job.id.0@;
    let a = attempts_of(old_retry, id);
    let policy = job.retry_policy;
    match outcome {
        RunOutcome::Exited { success, exit_code, output } => if success {
            &&& retry == old_retry.remove(id)
            &&& r.history == Some(HistoryRecord { status: RunStatus::Success, output })
            &&& r.retry is None
            &&& r.hook == job.hooks.on_success
        } else if a < policy.max_attempts {
            let at = retry_instant(
                now,
                backoff_delay(
                    a as nat,
                    policy.backoff_strategy,
                    policy.initial_delay_seconds as nat,
                    policy.max_delay_seconds as nat,
                ),
            );
            &&& retry == old_retry.insert(
                id,
                RetryState { attempt: (a + 1) as u32, next_attempt_at: Some(at) },
            )
            &&& r.history is None
            &&& r.retry == Some(RetryRecord { attempt: (a + 1) as u32, next_retry_at: at, exit_code })
            &&& r.hook is None
        } else {
            &&& retry == old_retry.remove(id)
            &&& r.history == Some(HistoryRecord { status: RunStatus::Failed, output })
            &&& r.retry is None
            &&& r.hook == job.hooks.on_failure
        },
        RunOutcome::WaitFailed(m) => {
            &&& retry == old_retry
            &&& r.history matches Some(h) && h.status == RunStatus::Error && h.output@
                == "Failed to wait: "@ + m@
            &&& r.retry is None
            &&& r.hook is None
        },
        RunOutcome::SpawnFailed(m) => {
            &&& retry == old_retry
            &&& r.history matches Some(h) && h.status == RunStatus::SpawnError && h.output@
                == "Failed to spawn: "@ + m@
            &&& r.retry is None
            &&& r.hook is None
        },
    }
}

/// The scheduler core: the live jobs, their last fire instants and windows,
/// the running jobs and the pending retries, each keyed by job id.
pub struct Scheduler {
    pub jobs: KeyedTable<Job>,
    pub last_runs: KeyedTable<i64>,
    pub last_execution_windows: KeyedTable<i64>,
    pub running_jobs: RunningMap,
    pub retry_state: KeyedTable<RetryState>,
}

impl Scheduler {
    pub open spec fn wf(&self) -> bool {
        &&& self.jobs.wf()
        &&& self.last_runs.wf()
        &&& self.last_execution_windows.wf()
        &&& self.retry_state.wf()
        &&& forall|k: Seq<char>| #[trigger]
            self.jobs@.contains_key(k) ==> self.jobs@[k].id.0@ == k
    }

    pub open spec fn running(&self) -> Map<Seq<char>, JobExecutionContext> {
        running_entries(self.running_jobs)
    }

    /// A retry of job `k` is due at `now`.
    pub open spec fn retry_due(&self, k: Seq<char>, now: i64) -> bool {
        &&& self.jobs@.contains_key(k)
        &&& !self.running().contains_key(k)
        &&& self.retry_state@.contains_key(k)
        &&& self.retry_state@[k].next_attempt_at matches Some(t) && t <= now
    }

    /// Job `k` is judged by its schedule at `now`.
    pub open spec fn schedule_eligible(&self, k: Seq<char>, now: i64) -> bool {
        &&& self.jobs@.contains_key(k)
        &&& !self.running().contains_key(k)
        &&& !self.retry_due(k, now)
        &&& self.jobs@[k].enabled
    }

    pub fn new() -> (r: Self)
        ensures
            r.wf(),
            r.jobs@ == Map::<Seq<char>, Job>::empty(),
            r.last_runs@ == Map::<Seq<char>, i64>::empty(),
            r.last_execution_windows@ == Map::<Seq<char>, i64>::empty(),
            r.running() == Map::<Seq<char>, JobExecutionContext>::empty(),
            r.retry_state@ == Map::<Seq<char>, RetryState>::empty(),
    {
        let r = Scheduler {
            jobs: KeyedTable::new(),
            last_runs: KeyedTable::new(),
            last_execution_windows: KeyedTable::new(),
            running_jobs: running_new(),
            retry_state: KeyedTable::new(),
        };
        proof {
            assert(r.running() =~= Map::<Seq<char>, JobExecutionContext>::empty());
        }
        r
    }

    /// Adds a job, or replaces the job with the same id; its fire history and
    /// pending retry are kept.
    pub fn add_job(&mut self, job: Job)
        requires
            old(self).wf(),
        ensures
            final(self).wf(),
            final(self).jobs@ == old(self).jobs@.insert(job.id.0@, job),
            final(self).last_runs@ == old(self).last_runs@,
            final(self).last_execution_windows@ == old(self).last_execution_windows@,
            final(self).running() == old(self).running(),
            final(self).retry_state@ == old(self).retry_state@,
    {
        let key = job.id.0.clone();
        self.jobs.insert(key, job);
    }

    /// Removes a job with its fire history and pending retry. A running
    /// execution is left to finish.
    pub fn remove_job(&mut self, id: &str) -> (r: bool)
        requires
            old(self).wf(),
        ensures
            final(self).wf(),
            r == old(self).jobs@.contains_key(id@),
            final(self).jobs@ == old(self).jobs@.remove(id@),
            final(self).last_runs@ == old(self).last_runs@.remove(id@),
            final(self).last_execution_windows@ == old(self).last_execution_windows@.remove(id@),
            final(self).running() == old(self).running(),
            final(self).retry_state@ == old(self).retry_state@.remove(id@),
    {
        let removed = self.jobs.remove(id);
        self.last_runs.remove(id);
        self.last_execution_windows.remove(id);
        self.retry_state.remove(id);
        removed.is_some()
    }

    /// Marks the run of job `id` as over.
    pub fn finish_job(&mut self, id: &str)
        requires
            old(self).wf(),
        ensures
            final(self).wf(),
            final(self).jobs@ == old(self).jobs@,
            final(self).last_runs@ == old(self).last_runs@,
            final(self).last_execution_windows@ == old(self).last_execution_windows@,
            final(self).running() == old(self).running().remove(id@),
            final(self).retry_state@ == old(self).retry_state@,
    {
        running_remove(&mut self.running_jobs, id);
    }

    /// Decides which jobs are due at `now` (milliseconds after the Unix
    /// epoch): first the jobs whose retry has come, then each enabled job
    /// whose schedule selects an instant. Each job handed out gets an
    /// execution context; a running job is never handed out.
    #[verifier::rlimit(60)]
    pub fn tick(&mut self, now: i64) -> (due: Vec<Job>)
        requires
            old(self).wf(),
        ensures
            tick_result(*old(self), *final(self), due@, now),
    {
        let ghost s0 = *self;
        let mut due: Vec<Job> = Vec::new();
        let mut i: usize = 0;
        while i < self.retry_state.entries.len()
            invariant
                self.wf(),
                s0.wf(),
                self.jobs == s0.jobs,
                self.retry_state == s0.retry_state,
                self.last_runs == s0.last_runs,
                self.last_execution_windows == s0.last_execution_windows,
                0 <= i <= self.retry_state.entries@.len(),
                ids_unique(due@),
                forall|x: int|
                    0 <= x < due@.len() ==> {
                        &&& s0.jobs@.contains_key((#[trigger] due@[x]).id.0@)
                        &&& due@[x].same(&s0.jobs@[due@[x].id.0@])
                        &&& !s0.running().contains_key(due@[x].id.0@)
                    },
                forall|k: Seq<char>| #[trigger]
                    has_id(due@, k) ==> {
                        &&& s0.retry_due(k, now)
                        &&& lookup(self.running(), k) matches Some(c) && c.scheduled_time == now
                            && c.start_time == now && c.pid is None && is_execution_id(
                            c.execution_id@,
                        )
                        &&& exists|x: int|
                            0 <= x < i && (#[trigger] self.retry_state.entries@[x].0)@ == k
                    },
                forall|k: Seq<char>|
                    !has_id(due@, k) ==> #[trigger] lookup(self.running(), k) == lookup(
                        s0.running(),
                        k,
                    ),
                forall|x: int|
                    0 <= x < i ==> (s0.retry_due(
                        (#[trigger] self.retry_state.entries@[x].0)@,
                        now,
                    ) ==> has_id(due@, self.retry_state.entries@[x].0@)),
            decreases self.retry_state.entries@.len() - i,
        {
            let k: String = self.retry_state.entries[i].0.clone();
            let st: RetryState = self.retry_state.entries[i].1;
            proof {
                lemma_entry_lookup(self.retry_state.entries@, i as int);
                assert(!has_id(due@, k@)) by {
                    if has_id(due@, k@) {
                        let x = choose|x: int|
                            0 <= x < i && (#[trigger] self.retry_state.entries@[x].0)@ == k@;
                        assert(self.retry_state.entries@[x].0@ == self.retry_state.entries@[i as int].0@);
                    }
                }
            }
            let ghost due_before = due@;
            let ghost run_before = self.running();
            let mut started = false;
            match st.next_attempt_at {
                Some(t) => {
                    if t <= now {
                        match self.jobs.get(k.as_str()) {
                            Some(job) => {
                                if !running_contains(&self.running_jobs, k.as_str()) {
                                    let copy = job.clone();
                                    due.push(copy);
                                    let ctx = JobExecutionContext {
                                        execution_id: new_execution_id(),
                                        scheduled_time: now,
                                        start_time: now,
                                        pid: None,
                                    };
                                    running_insert(&mut self.running_jobs, k.clone(), ctx);
                                    started = true;
                                }
                            },
                            None => {},
                        }
                    }
                },
                None => {},
            }
            proof {
                if started {
                    let n = due_before.len() as int;
                    assert(due@ == due_before.push(due@[n]));
                    assert(due@[n].id.0@ == k@);
                    assert forall|kk: Seq<char>| has_id(due@, kk) == (has_id(due_before, kk) || kk == k@) by {
                        if has_id(due_before, kk) {
                            let x = choose|x: int| 0 <= x < due_before.len() && (#[trigger] due_before[x]).id.0@ == kk;
                            assert(due@[x] == due_before[x]);
                        }
                        if has_id(due@, kk) {
                            let x = choose|x: int| 0 <= x < due@.len() && (#[trigger] due@[x]).id.0@ == kk;
                            if x < n {
                                assert(due@[x] == due_before[x]);
                            }
                        }
                    }
                    assert(ids_unique(due@)) by {
                        assert forall|a: int, b: int|
                            0 <= a < due@.len() && 0 <= b < due@.len() && (#[trigger] due@[a]).id.0@ == (#[trigger] due@[b]).id.0@ implies a == b by {
                            if a < n && b == n {
                                assert(has_id(due_before, due_before[a].id.0@));
                            }
                            if b < n && a == n {
                                assert(has_id(due_before, due_before[b].id.0@));
                            }
                        }
                    }
                    assert(s0.retry_due(k@, now));
                    assert forall|q: Seq<char>| q != k@ implies #[trigger] lookup(self.running(), q)
                        == lookup(run_before, q) by {}
                    assert forall|kk: Seq<char>| #[trigger] has_id(due@, kk) implies exists|x: int|
                            0 <= x < i + 1 && (#[trigger] self.retry_state.entries@[x].0)@ == kk by {
                        if kk == k@ {
                            assert(self.retry_state.entries@[i as int].0@ == kk);
                        } else {
                            assert(has_id(due_before, kk));
                            let x = choose|x: int|
                                0 <= x < i && (#[trigger] self.retry_state.entries@[x].0)@ == kk;
                            assert(0 <= x < i + 1);
                        }
                    }
                    assert forall|kk: Seq<char>| #[trigger] has_id(due@, kk) implies {
                        &&& s0.retry_due(kk, now)
                        &&& lookup(self.running(), kk) matches Some(c) && c.scheduled_time == now
                            && c.start_time == now && c.pid is None && is_execution_id(
                            c.execution_id@,
                        )
                    } by {
                        if kk != k@ {
                            assert(has_id(due_before, kk));
                        }
                    }
                    assert forall|kk: Seq<char>| !has_id(due@, kk) implies #[trigger] lookup(
                        self.running(),
                        kk,
                    ) == lookup(s0.running(), kk) by {
                        assert(kk != k@);
                    }
                } else {
                    assert(due@ == due_before);
                    assert(self.running() == run_before);
                    assert(!s0.retry_due(k@, now));
                }
            }
            i = i + 1;
        }
        proof {
            assert forall|k: Seq<char>| s0.retry_due(k, now) implies has_id(due@, k) by {
                assert(self.retry_state@.contains_key(k));
                let x = choose|x: int|
                    0 <= x < self.retry_state.entries@.len() && (#[trigger] self.retry_state.entries@[x].0)@ == k;
                assert(s0.retry_due(self.retry_state.entries@[x].0@, now));
            }
        }
        let ghost s1 = *self;
        let ghost due1 = due@;
        let mut i: usize = 0;
        while i < self.jobs.entries.len()
            invariant
                self.wf(),
                s0.wf(),
                self.jobs == s0.jobs,
                self.retry_state == s0.retry_state,
                0 <= i <= self.jobs.entries@.len(),
                ids_unique(due@),
                forall|x: int|
                    0 <= x < due@.len() ==> {
                        &&& s0.jobs@.contains_key((#[trigger] due@[x]).id.0@)
                        &&& due@[x].same(&s0.jobs@[due@[x].id.0@])
                        &&& !s0.running().contains_key(due@[x].id.0@)
                    },
                forall|k: Seq<char>| #[trigger] has_id(due1, k) == s0.retry_due(k, now),
                forall|k: Seq<char>|
                    has_id(due1, k) ==> (#[trigger] lookup(s1.running(), k) matches Some(c)
                        && c.scheduled_time == now && c.start_time == now && c.pid is None
                        && is_execution_id(c.execution_id@)),
                forall|k: Seq<char>|
                    !has_id(due1, k) ==> #[trigger] lookup(s1.running(), k) == lookup(
                        s0.running(),
                        k,
                    ),
                s1.last_runs == s0.last_runs,
                s1.last_execution_windows == s0.last_execution_windows,
                forall|x: int|
                    0 <= x < i ==> #[trigger] key_outcome(
                        s0,
                        self.jobs.entries@[x].0@,
                        now,
                        has_id(due@, self.jobs.entries@[x].0@),
                        lookup(self.last_runs@, self.jobs.entries@[x].0@),
                        lookup(self.last_execution_windows@, self.jobs.entries@[x].0@),
                        lookup(self.running(), self.jobs.entries@[x].0@),
                    ),
                forall|k: Seq<char>|
                    (forall|x: int| 0 <= x < i ==> (#[trigger] self.jobs.entries@[x].0)@ != k) ==> {
                        &&& has_id(due@, k) == has_id(due1, k)
                        &&& #[trigger] lookup(self.last_runs@, k) == lookup(s0.last_runs@, k)
                        &&& lookup(self.last_execution_windows@, k) == lookup(
                            s0.last_execution_windows@,
                            k,
                        )
                        &&& lookup(self.running(), k) == lookup(s1.running(), k)
                    },
            decreases self.jobs.entries@.len() - i,
        {
            let k: String = self.jobs.entries[i].0.clone();
            proof {
                lemma_entry_lookup(self.jobs.entries@, i as int);
                assert forall|x: int| 0 <= x < i implies (#[trigger] self.jobs.entries@[x].0)@ != k@ by {
                    if self.jobs.entries@[x].0@ == k@ {
                        assert(self.jobs.entries@[x].0@ == self.jobs.entries@[i as int].0@);
                    }
                }
            }
            let ghost due_before = due@;
            let ghost lr_before = self.last_runs@;
            let ghost win_before = self.last_execution_windows@;
            let ghost run_before = self.running();
            let enabled = self.jobs.entries[i].1.enabled;
            let busy = running_contains(&self.running_jobs, k.as_str());
            let ghost fired_obs: Option<Observation> = None;
            if enabled && !busy {
                let last_run: Option<i64> = match self.last_runs.get(k.as_str()) {
                    Some(v) => Some(*v),
                    None => None,
                };
                let last_window: Option<i64> = match self.last_execution_windows.get(k.as_str()) {
                    Some(v) => Some(*v),
                    None => None,
                };
                let mut obs = observe(&self.jobs.entries[i].1, last_run, last_window, now);
                match plan_fire(&self.jobs.entries[i].1, last_run, now, &obs) {
                    Some(t) => {
                        let js = self.jobs.entries[i].1.jitter_seconds;
                        if js > 0 {
                            let bound: u64 = if js <= u64::MAX / 1000 {
                                js * 1000
                            } else {
                                u64::MAX
                            };
                            obs.jitter_ms = draw_below(bound);
                        }
                        let fire = apply_jitter(t, obs.jitter_ms);
                        let copy = self.jobs.entries[i].1.clone();
                        due.push(copy);
                        self.last_runs.insert(k.clone(), fire);
                        self.last_execution_windows.insert(k.clone(), fire);
                        let ctx = JobExecutionContext {
                            execution_id: new_execution_id(),
                            scheduled_time: fire,
                            start_time: now,
                            pid: None,
                        };
                        running_insert(&mut self.running_jobs, k.clone(), ctx);
                    },
                    None => {},
                }
                proof {
                    fired_obs = Some(obs);
                }
            }
            proof {
                let kk = k@;
                let fired = due@.len() > due_before.len();
                if fired {
                    let n = due_before.len() as int;
                    assert(due@ == due_before.push(due@[n]));
                    assert(due@[n].id.0@ == kk);
                    assert forall|q: Seq<char>| has_id(due@, q) == (has_id(due_before, q) || q == kk) by {
                        if has_id(due_before, q) {
                            let x = choose|x: int| 0 <= x < due_before.len() && (#[trigger] due_before[x]).id.0@ == q;
                            assert(due@[x] == due_before[x]);
                        }
                        if has_id(due@, q) {
                            let x = choose|x: int| 0 <= x < due@.len() && (#[trigger] due@[x]).id.0@ == q;
                            if x < n {
                                assert(due@[x] == due_before[x]);
                            }
                        }
                    }
                    assert(!has_id(due_before, kk));
                    assert(ids_unique(due@)) by {
                        assert forall|a: int, b: int|
                            0 <= a < due@.len() && 0 <= b < due@.len() && (#[trigger] due@[a]).id.0@ == (#[trigger] due@[b]).id.0@ implies a == b by {
                            if a < n && b == n {
                                assert(has_id(due_before, due_before[a].id.0@));
                            }
                            if b < n && a == n {
                                assert(has_id(due_before, due_before[b].id.0@));
                            }
                        }
                    }
                } else {
                    assert(due@ == due_before);
                }
                assert forall|q: Seq<char>| q != kk implies {
                    &&& #[trigger] lookup(self.last_runs@, q) == lookup(lr_before, q)
                    &&& lookup(self.last_execution_windows@, q) == lookup(win_before, q)
                    &&& lookup(self.running(), q) == lookup(run_before, q)
                    &&& has_id(due@, q) == has_id(due_before, q)
                } by {}
                if !enabled || busy {
                    assert(due@ == due_before);
                } else {
                    let obs = fired_obs.unwrap();
                    assert(s0.schedule_eligible(kk, now));
                    assert(observed(s0.jobs@[kk], lookup(s0.last_runs@, kk), lookup(s0.last_execution_windows@, kk), now, obs));
                }
                assert(key_outcome(
                    s0,
                    self.jobs.entries@[i as int].0@,
                    now,
                    has_id(due@, self.jobs.entries@[i as int].0@),
                    lookup(self.last_runs@, self.jobs.entries@[i as int].0@),
                    lookup(self.last_execution_windows@, self.jobs.entries@[i as int].0@),
                    lookup(self.running(), self.jobs.entries@[i as int].0@),
                ));
                let ents = self.jobs.entries@;
                assert forall|x: int| 0 <= x < i implies #[trigger] key_outcome(
                    s0,
                    ents[x].0@,
                    now,
                    has_id(due@, ents[x].0@),
                    lookup(self.last_runs@, ents[x].0@),
                    lookup(self.last_execution_windows@, ents[x].0@),
                    lookup(self.running(), ents[x].0@),
                ) by {
                    assert(ents[x].0@ != kk);
                    assert(key_outcome(
                        s0,
                        ents[x].0@,
                        now,
                        has_id(due_before, ents[x].0@),
                        lookup(lr_before, ents[x].0@),
                        lookup(win_before, ents[x].0@),
                        lookup(run_before, ents[x].0@),
                    ));
                }
                assert forall|q: Seq<char>|
                    (forall|x: int| 0 <= x < i + 1 ==> (#[trigger] ents[x].0)@ != q) implies {
                        &&& has_id(due@, q) == has_id(due1, q)
                        &&& #[trigger] lookup(self.last_runs@, q) == lookup(s0.last_runs@, q)
                        &&& lookup(self.last_execution_windows@, q) == lookup(
                            s0.last_execution_windows@,
                            q,
                        )
                        &&& lookup(self.running(), q) == lookup(s1.running(), q)
                    } by {
                    assert(ents[i as int].0@ != q);
                    assert forall|x: int| 0 <= x < i implies (#[trigger] ents[x].0)@ != q by {
                        assert(0 <= x < i + 1);
                    }
                }
            }
            i = i + 1;
        }
        proof {
            assert forall|k: Seq<char>|
                #![trigger lookup(self.running(), k)]
                key_outcome(
                    s0,
                    k,
                    now,
                    has_id(due@, k),
                    lookup(self.last_runs@, k),
                    lookup(self.last_execution_windows@, k),
                    lookup(self.running(), k),
                ) by {
                if exists|x: int| 0 <= x < self.jobs.entries@.len() && (#[trigger] self.jobs.entries@[x].0)@ == k {
                    let x = choose|x: int| 0 <= x < self.jobs.entries@.len() && (#[trigger] self.jobs.entries@[x].0)@ == k;
                    assert(key_outcome(
                        s0,
                        self.jobs.entries@[x].0@,
                        now,
                        has_id(due@, self.jobs.entries@[x].0@),
                        lookup(self.last_runs@, self.jobs.entries@[x].0@),
                        lookup(self.last_execution_windows@, self.jobs.entries@[x].0@),
                        lookup(self.running(), self.jobs.entries@[x].0@),
                    ));
                } else {
                    assert(!s0.jobs@.contains_key(k));
                    assert(lookup(self.last_runs@, k) == lookup(s0.last_runs@, k));
                }
            }
        }
        due
    }

    /// Records how a run of `job` ended: clears its retry on success,
    /// schedules the next retry with backoff while attempts remain, and marks
    /// the run as over.
    pub fn complete_job(&mut self, job: &Job, outcome: RunOutcome, now: i64) -> (r:
        CompletionAction)
        requires
            old(self).wf(),
        ensures
            final(self).wf(),
            final(self).jobs@ == old(self).jobs@,
            final(self).last_runs@ == old(self).last_runs@,
            final(self).last_execution_windows@ == old(self).last_execution_windows@,
            final(self).running() == old(self).running().remove(job.id.0@),
            completion_result(*job, outcome, now, old(self).retry_state@, final(self).retry_state@, r),
    {
        let id = job.id.0.as_str();
        let a: u32 = match self.retry_state.get(id) {
            Some(st) => st.attempt,
            None => 0,
        };
        let action = match outcome {
            RunOutcome::Exited { success, exit_code, output } => {
                if success {
                    self.retry_state.remove(id);
                    CompletionAction {
                        history: Some(HistoryRecord { status: RunStatus::Success, output }),
                        retry: None,
                        hook: job.hooks.on_success.clone(),
                    }
                } else if a < job.retry_policy.max_attempts {
                    let policy = job.retry_policy;
                    let delay = calculate_backoff_delay(
                        a,
                        &policy.backoff_strategy,
                        policy.initial_delay_seconds,
                        policy.max_delay_seconds,
                    );
                    let at_wide: i128 = now as i128 + delay as i128 * 1000;
                    let at: i64 = if at_wide <= i64::MAX as i128 {
                        at_wide as i64
                    } else {
                        i64::MAX
                    };
                    let next = RetryState { attempt: a + 1, next_attempt_at: Some(at) };
                    self.retry_state.insert(job.id.0.clone(), next);
                    CompletionAction {
                        history: None,
                        retry: Some(RetryRecord { attempt: a + 1, next_retry_at: at, exit_code }),
                        hook: None,
                    }
                } else {
                    self.retry_state.remove(id);
                    CompletionAction {
                        history: Some(HistoryRecord { status: RunStatus::Failed, output }),
                        retry: None,
                        hook: job.hooks.on_failure.clone(),
                    }
                }
            },
            RunOutcome::WaitFailed(m) => {
                let mut text = "Failed to wait: ".to_owned();
                text.append(m.as_str());
                CompletionAction {
                    history: Some(HistoryRecord { status: RunStatus::Error, output: text }),
                    retry: None,
                    hook: None,
                }
            },
            RunOutcome::SpawnFailed(m) => {
                let mut text = "Failed to spawn: ".to_owned();
                text.append(m.as_str());
                CompletionAction {
                    history: Some(HistoryRecord { status: RunStatus::SpawnError, output: text }),
                    retry: None,
                    hook: None,
                }
            },
        };
        running_remove(&mut self.running_jobs, id);
        action
    }

    /// Records the process id of a run once its process is spawned.
    pub fn set_pid(&mut self, id: &str, pid: u32)
        requires
            old(self).wf(),
        ensures
            final(self).wf(),
            final(self).jobs@ == old(self).jobs@,
            final(self).last_runs@ == old(self).last_runs@,
            final(self).last_execution_windows@ == old(self).last_execution_windows@,
            final(self).retry_state@ == old(self).retry_state@,
            old(self).running().contains_key(id@) ==> final(self).running() == old(
                self,
            ).running().insert(id@, JobExecutionContext { pid: Some(pid), ..old(self).running()[id@] }),
            !old(self).running().contains_key(id@) ==> final(self).running() == old(self).running(),
    {
        match running_get(&self.running_jobs, id) {
            Some(ctx) => {
                let updated = JobExecutionContext { pid: Some(pid), ..ctx };
                running_insert(&mut self.running_jobs, id.to_owned(), updated);
            },
            None => {},
        }
    }
}

} // verus!
