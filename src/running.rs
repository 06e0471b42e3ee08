use vstd::prelude::*;

use dashmap::DashMap;

verus! {

/// Bookkeeping for one run of a job, from dispatch until its process is reaped.
/// Instants are milliseconds after the Unix epoch.
#[derive(Debug, PartialEq, Eq)]
pub struct JobExecutionContext {
    pub execution_id: String,
    pub scheduled_time: i64,
    pub start_time: i64,
    pub pid: Option<u32>,
}

impl Clone for JobExecutionContext {
    fn clone(&self) -> (r: Self)
        ensures
            r == *self,
    {
        JobExecutionContext {
            execution_id: self.execution_id.clone(),
            scheduled_time: self.scheduled_time,
            start_time: self.start_time,
            pid: self.pid,
        }
    }
}

#[verifier::external_type_specification]
#[verifier::external_body]
#[verifier::reject_recursive_types(K)]
#[verifier::reject_recursive_types(V)]
#[verifier::reject_recursive_types(S)]
pub struct ExDashMap<K, V, S>(DashMap<K, V, S>);

/// The map of running jobs, keyed by job id.
pub type RunningMap = DashMap<String, JobExecutionContext>;

/// What the running-jobs map holds, by job id.
pub uninterp spec fn running_entries(m: RunningMap) -> Map<Seq<char>, JobExecutionContext>;

/// Relies on dashmap's `DashMap::new`: an empty map.
#[verifier::external_body]
pub fn running_new() -> (r: RunningMap)
    ensures
        running_entries(r) =~= Map::empty(),
{
    DashMap::new()
}

/// Relies on dashmap's `DashMap::insert`, which sets the value for the key.
#[verifier::external_body]
pub fn running_insert(
    m: &mut RunningMap,
    k: String,
    v: JobExecutionContext,
)
    ensures
        running_entries(*final(m)) == running_entries(*old(m)).insert(k@, v),
{
    m.insert(k, v);
}

/// Relies on dashmap's `DashMap::remove`, which drops the key's entry if any.
#[verifier::external_body]
pub fn running_remove(m: &mut RunningMap, k: &str)
    ensures
        running_entries(*final(m)) == running_entries(*old(m)).remove(k@),
{
    m.remove(k);
}

/// Relies on dashmap's `DashMap::contains_key`.
#[verifier::external_body]
pub fn running_contains(m: &RunningMap, k: &str) -> (r: bool)
    ensures
        r == running_entries(*m).contains_key(k@),
{
    m.contains_key(k)
}

/// Relies on dashmap's `DashMap::get`; the entry is handed out as a copy.
#[verifier::external_body]
pub fn running_get(m: &RunningMap, k: &str) -> (r: Option<JobExecutionContext>)
    ensures
        match r {
            Some(c) => running_entries(*m).contains_key(k@) && c == running_entries(*m)[k@],
            None => !running_entries(*m).contains_key(k@),
        },
{
    m.get(k).map(|e| e.value().clone())
}

} // verus!
