use vstd::prelude::*;

use crate::clock::CivilTime;
use crate::evaluate::{calendar_fire, calendar_matches};
use crate::job::{CalendarParams, Job};
use crate::scheduler::{
    attempts_of, base_fire, completion_result, has_id, ids_unique, jittered, key_outcome, lookup,
    observed, tick_result, zone_reading, CompletionAction, Observation, RetryState, RunOutcome,
    Scheduler,
};

verus! {

/// A tick never gives a job a second execution context: it hands each job
/// out at most once, never one that is already running, installs a context
/// for each job it hands out and leaves the contexts of running jobs as they
/// were.
pub proof fn tick_never_doubles_a_run(old: Scheduler, fin: Scheduler, due: Seq<Job>, now: i64)
    requires
        tick_result(old, fin, due, now),
    ensures
        forall|a: int, b: int|
            0 <= a < b < due.len() ==> (#[trigger] due[a]).id.0@ != (#[trigger] due[b]).id.0@,
        forall|x: int|
            0 <= x < due.len() ==> !old.running().contains_key((#[trigger] due[x]).id.0@)
                && fin.running().contains_key(due[x].id.0@),
        forall|k: Seq<char>| #[trigger]
            old.running().contains_key(k) ==> fin.running().contains_key(k) && fin.running()[k]
                == old.running()[k],
{
    assert forall|a: int, b: int| 0 <= a < b < due.len() implies (#[trigger] due[a]).id.0@ != (
    #[trigger] due[b]).id.0@ by {
        assert(ids_unique(due));
    }
    assert forall|x: int| 0 <= x < due.len() implies !old.running().contains_key(
        (#[trigger] due[x]).id.0@,
    ) && fin.running().contains_key(due[x].id.0@) by {
        let k = due[x].id.0@;
        assert(has_id(due, k));
        assert(key_outcome(
            old,
            k,
            now,
            has_id(due, k),
            lookup(fin.last_runs@, k),
            lookup(fin.last_execution_windows@, k),
            lookup(fin.running(), k),
        ));
        if !old.retry_due(k, now) && old.schedule_eligible(k, now) {
            let obs = choose|obs: Observation|
                #[trigger] observed(
                    old.jobs@[k],
                    lookup(old.last_runs@, k),
                    lookup(old.last_execution_windows@, k),
                    now,
                    obs,
                ) && crate::scheduler::fire_outcome(
                    base_fire(old.jobs@[k], lookup(old.last_runs@, k), now, obs),
                    obs.jitter_ms,
                    now,
                    has_id(due, k),
                    lookup(fin.last_runs@, k),
                    lookup(fin.last_execution_windows@, k),
                    lookup(fin.running(), k),
                    lookup(old.last_runs@, k),
                    lookup(old.last_execution_windows@, k),
                );
        }
    }
    assert forall|k: Seq<char>| #[trigger]
        old.running().contains_key(k) implies fin.running().contains_key(k) && fin.running()[k]
        == old.running()[k] by {
        assert(key_outcome(
            old,
            k,
            now,
            has_id(due, k),
            lookup(fin.last_runs@, k),
            lookup(fin.last_execution_windows@, k),
            lookup(fin.running(), k),
        ));
    }
}

/// Fires of an `Every(s)` job lie at least `s` seconds apart, jitter
/// included: where a tick moves a job's recorded fire instant, the new one is
/// no earlier than the old one plus the interval.
pub proof fn every_fires_are_spaced(
    old: Scheduler,
    fin: Scheduler,
    due: Seq<Job>,
    now: i64,
    k: Seq<char>,
)
    requires
        tick_result(old, fin, due, now),
        old.jobs@.contains_key(k),
        old.jobs@[k].schedule is Every,
        old.last_runs@.contains_key(k),
    ensures
        fin.last_runs@.contains_key(k),
        fin.last_runs@[k] != old.last_runs@[k] ==> fin.last_runs@[k] >= old.last_runs@[k]
            + old.jobs@[k].schedule->Every_0 * 1000,
{
    assert(key_outcome(
        old,
        k,
        now,
        has_id(due, k),
        lookup(fin.last_runs@, k),
        lookup(fin.last_execution_windows@, k),
        lookup(fin.running(), k),
    ));
    if !old.retry_due(k, now) && old.schedule_eligible(k, now) {
        let obs = choose|obs: Observation|
            #[trigger] observed(
                old.jobs@[k],
                lookup(old.last_runs@, k),
                lookup(old.last_execution_windows@, k),
                now,
                obs,
            ) && crate::scheduler::fire_outcome(
                base_fire(old.jobs@[k], lookup(old.last_runs@, k), now, obs),
                obs.jitter_ms,
                now,
                has_id(due, k),
                lookup(fin.last_runs@, k),
                lookup(fin.last_execution_windows@, k),
                lookup(fin.running(), k),
                lookup(old.last_runs@, k),
                lookup(old.last_execution_windows@, k),
            );
        let f = base_fire(old.jobs@[k], lookup(old.last_runs@, k), now, obs);
        if f is Some {
            let t = f->Some_0;
            assert(t <= now);
            assert(t >= old.last_runs@[k] + old.jobs@[k].schedule->Every_0 * 1000);
            assert(jittered(t, obs.jitter_ms) >= t);
        }
    }
}

/// A calendar rule fires at most once in a wall-clock second: a reading
/// equal to the reading of the last window never fires, and a selected
/// reading that differs from it fires now.
pub proof fn calendar_fires_once_per_second(
    p: CalendarParams,
    t: CivilTime,
    window: Option<CivilTime>,
    now: i64,
)
    ensures
        calendar_fire(p, Some(t), Some(t), now) is None,
        window != Some(t) && calendar_matches(p, t) ==> calendar_fire(p, Some(t), window, now)
            == Some(now as int),
{
}

/// In any zone, the host's included, a tick hands a calendar job out only
/// where the reading of now that it obtained is selected by the rule and
/// differs from the reading it obtained of the job's last window; a fire
/// without jitter records now as that window. So ticks whose reading equals
/// the reading of the last fire's instant, as ticks within the same
/// wall-clock second do, never hand the job out again.
pub proof fn calendar_fires_only_in_a_new_second(
    old: Scheduler,
    fin: Scheduler,
    due: Seq<Job>,
    now: i64,
    k: Seq<char>,
)
    requires
        tick_result(old, fin, due, now),
        old.jobs@.contains_key(k),
        old.jobs@[k].schedule is Calendar,
        !old.retry_due(k, now),
    ensures
        has_id(due, k) ==> exists|obs: Observation|
            #[trigger] observed(
                old.jobs@[k],
                lookup(old.last_runs@, k),
                lookup(old.last_execution_windows@, k),
                now,
                obs,
            ) && (obs.now_local matches Some(t) && obs.window_local != Some(t)
                && calendar_matches(old.jobs@[k].schedule->Calendar_0, t)),
        (has_id(due, k) && old.jobs@[k].jitter_seconds == 0)
            ==> fin.last_execution_windows@.contains_key(k) && fin.last_execution_windows@[k]
            == now,
{
    assert(key_outcome(
        old,
        k,
        now,
        has_id(due, k),
        lookup(fin.last_runs@, k),
        lookup(fin.last_execution_windows@, k),
        lookup(fin.running(), k),
    ));
    if old.schedule_eligible(k, now) {
        let obs = choose|obs: Observation|
            #[trigger] observed(
                old.jobs@[k],
                lookup(old.last_runs@, k),
                lookup(old.last_execution_windows@, k),
                now,
                obs,
            ) && crate::scheduler::fire_outcome(
                base_fire(old.jobs@[k], lookup(old.last_runs@, k), now, obs),
                obs.jitter_ms,
                now,
                has_id(due, k),
                lookup(fin.last_runs@, k),
                lookup(fin.last_execution_windows@, k),
                lookup(fin.running(), k),
                lookup(old.last_runs@, k),
                lookup(old.last_execution_windows@, k),
            );
        if has_id(due, k) {
            assert(obs.now_local matches Some(t) && obs.window_local != Some(t) && calendar_matches(
                old.jobs@[k].schedule->Calendar_0,
                t,
            ));
        }
    }
}

/// For a calendar job in a named zone, a tick whose wall-clock second equals
/// the second of the job's last window does not hand the job out, and a tick
/// in a new second that the rule selects does; a fire without jitter
/// records now as the job's window.
pub proof fn zoned_calendar_window(
    old: Scheduler,
    fin: Scheduler,
    due: Seq<Job>,
    now: i64,
    k: Seq<char>,
)
    requires
        tick_result(old, fin, due, now),
        old.jobs@.contains_key(k),
        old.jobs@[k].schedule is Calendar,
        old.jobs@[k].timezone is Some,
        zone_reading(old.jobs@[k].timezone->Some_0@, now) is Some,
        !old.retry_due(k, now),
    ensures
        ({
            let z = old.jobs@[k].timezone->Some_0@;
            let reading = zone_reading(z, now)->Some_0;
            let window = match lookup(old.last_execution_windows@, k) {
                Some(w) => zone_reading(z, w),
                None => None,
            };
            &&& window == Some(reading) ==> !has_id(due, k)
            &&& (old.schedule_eligible(k, now) && window != Some(reading) && calendar_matches(
                old.jobs@[k].schedule->Calendar_0,
                reading,
            )) ==> has_id(due, k)
            &&& (has_id(due, k) && old.jobs@[k].jitter_seconds == 0)
                ==> fin.last_execution_windows@.contains_key(k) && fin.last_execution_windows@[k]
                == now
        }),
{
    assert(key_outcome(
        old,
        k,
        now,
        has_id(due, k),
        lookup(fin.last_runs@, k),
        lookup(fin.last_execution_windows@, k),
        lookup(fin.running(), k),
    ));
    if old.schedule_eligible(k, now) {
        let obs = choose|obs: Observation|
            #[trigger] observed(
                old.jobs@[k],
                lookup(old.last_runs@, k),
                lookup(old.last_execution_windows@, k),
                now,
                obs,
            ) && crate::scheduler::fire_outcome(
                base_fire(old.jobs@[k], lookup(old.last_runs@, k), now, obs),
                obs.jitter_ms,
                now,
                has_id(due, k),
                lookup(fin.last_runs@, k),
                lookup(fin.last_execution_windows@, k),
                lookup(fin.running(), k),
                lookup(old.last_runs@, k),
                lookup(old.last_execution_windows@, k),
            );
        assert(obs.now_local == zone_reading(old.jobs@[k].timezone->Some_0@, now));
    }
}

/// After a successful run, no retry of the job is pending.
pub proof fn success_clears_retry(
    job: Job,
    outcome: RunOutcome,
    now: i64,
    old_retry: Map<Seq<char>, RetryState>,
    retry: Map<Seq<char>, RetryState>,
    r: CompletionAction,
)
    requires
        completion_result(job, outcome, now, old_retry, retry, r),
        outcome matches RunOutcome::Exited { success, .. } && success,
    ensures
        !retry.contains_key(job.id.0@),
{
}

/// A pending retry's attempt number grows by one with each failed attempt
/// and never passes the policy's maximum; with a maximum of zero no retry is
/// ever recorded.
pub proof fn retry_attempts_grow_and_stay_bounded(
    job: Job,
    outcome: RunOutcome,
    now: i64,
    old_retry: Map<Seq<char>, RetryState>,
    retry: Map<Seq<char>, RetryState>,
    r: CompletionAction,
)
    requires
        completion_result(job, outcome, now, old_retry, retry, r),
        old_retry.contains_key(job.id.0@) ==> old_retry[job.id.0@].attempt
            <= job.retry_policy.max_attempts,
    ensures
        retry.contains_key(job.id.0@) ==> retry[job.id.0@].attempt
            <= job.retry_policy.max_attempts,
        (outcome matches RunOutcome::Exited { success, .. } && !success && retry.contains_key(
            job.id.0@,
        )) ==> retry[job.id.0@].attempt == attempts_of(old_retry, job.id.0@) + 1,
        (job.retry_policy.max_attempts == 0 && !old_retry.contains_key(job.id.0@))
            ==> !retry.contains_key(job.id.0@),
{
}

} // verus!
