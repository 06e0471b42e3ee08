use vstd::prelude::*;

use crate::chance::{is_execution_id, new_execution_id};
use crate::job::{Job, JobId};
use crate::running::{running_contains, running_insert, JobExecutionContext};
use crate::scheduler::{has_id, ids_unique, Scheduler};
use crate::table::lemma_entry_lookup;

verus! {

/// A row of a job's run history.
#[derive(Debug, PartialEq, Eq)]
pub struct HistoryEntry {
    pub id: i64,
    pub job_id: String,
    pub run_at: String,
    pub status: String,
    pub output: Option<String>,
}

impl Clone for HistoryEntry {
    fn clone(&self) -> (r: Self)
        ensures
            r == *self,
    {
        HistoryEntry {
            id: self.id,
            job_id: self.job_id.clone(),
            run_at: self.run_at.clone(),
            status: self.status.clone(),
            output: self.output.clone(),
        }
    }
}

/// A request of a client on the control socket.
#[derive(Debug, PartialEq, Eq)]
pub enum Request {
    AddJob(Job),
    RemoveJob(JobId),
    ListJobs,
    GetJob(JobId),
    StartJob(JobId),
    GetHistory { job_id: JobId, limit: Option<u32> },
}

/// The daemon's answer to a request.
#[derive(Debug, PartialEq, Eq)]
pub enum Response {
    Accepted,
    Error(String),
    JobList(Vec<Job>),
    JobDetail(Option<Job>),
    HistoryList(Vec<HistoryEntry>),
}

/// What the caller does after a request was decided: persist or delete a
/// job in the store, run a job, or answer from the store's history.
#[derive(Debug, PartialEq, Eq)]
pub enum Followup {
    Nothing,
    PersistJob(Job),
    DeleteJob(String),
    Run(Job),
    QueryHistory { job_id: String, limit: Option<u32> },
}

/// The owner label for a peer's user id: `root` for uid 0, else the
/// service user `lunasched`.
pub open spec fn owner_name(uid: u32) -> Seq<char> {
    if uid == 0 {
        seq!['r', 'o', 'o', 't']
    } else {
        seq!['l', 'u', 'n', 'a', 's', 'c', 'h', 'e', 'd']
    }
}

pub fn owner_label(uid: u32) -> (r: &'static str)
    ensures
        r@ == owner_name(uid),
{
    if uid == 0 {
        proof {
            reveal_strlit("root");
        }
        "root"
    } else {
        proof {
            reveal_strlit("lunasched");
        }
        "lunasched"
    }
}

/// A requester may change a job that it owns; root may change any job.
pub open spec fn may_modify(owner: Seq<char>, uid: u32) -> bool {
    uid == 0 || owner == owner_name(uid)
}

/// `v` lists the jobs of `m`, each once.
pub open spec fn lists_jobs(v: Seq<Job>, m: Map<Seq<char>, Job>) -> bool {
    &&& ids_unique(v)
    &&& forall|x: int|
        0 <= x < v.len() ==> m.contains_key((#[trigger] v[x]).id.0@) && v[x].same(
            &m[v[x].id.0@],
        )
    &&& forall|k: Seq<char>| m.contains_key(k) ==> #[trigger] has_id(v, k)
}

pub open spec fn unchanged(old: Scheduler, fin: Scheduler) -> bool {
    &&& fin.jobs@ == old.jobs@
    &&& fin.last_runs@ == old.last_runs@
    &&& fin.last_execution_windows@ == old.last_execution_windows@
    &&& fin.running() == old.running()
    &&& fin.retry_state@ == old.retry_state@
}

pub open spec fn is_error(resp: Option<Response>, text: Seq<char>) -> bool {
    resp matches Some(Response::Error(e)) && e@ == text
}

/// What deciding request `req` of the peer with user id `uid` at `now` does.
pub open spec fn request_result(
    old: Scheduler,
    fin: Scheduler,
    uid: u32,
    req: Request,
    now: i64,
    resp: Option<Response>,
    follow: Followup,
) -> bool {
    match req {
        Request::AddJob(job) => {
            let id = job.id.0@;
            if old.jobs@.contains_key(id) && !may_modify(old.jobs@[id].owner@, uid) {
                &&& unchanged(old, fin)
                &&& is_error(
                    resp,
                    "Permission denied: Cannot overwrite job owned by "@ + old.jobs@[id].owner@,
                )
                &&& follow is Nothing
            } else {
                &&& resp == Some(Response::Accepted)
                &&& fin.jobs@.contains_key(id)
                &&& fin.jobs@[id].owner@ == owner_name(uid)
                &&& fin.jobs@[id] == Job { owner: fin.jobs@[id].owner, ..job }
                &&& fin.jobs@.remove(id) == old.jobs@.remove(id)
                &&& fin.last_runs@ == old.last_runs@
                &&& fin.last_execution_windows@ == old.last_execution_windows@
                &&& fin.running() == old.running()
                &&& fin.retry_state@ == old.retry_state@
                &&& follow matches Followup::PersistJob(p) && p.same(&fin.jobs@[id])
            }
        },
        Request::RemoveJob(jid) => {
            let id = jid.0@;
            if !old.jobs@.contains_key(id) {
                unchanged(old, fin) && is_error(resp, "Job not found"@) && follow is Nothing
            } else if !may_modify(old.jobs@[id].owner@, uid) {
                &&& unchanged(old, fin)
                &&& is_error(resp, "Permission denied: Cannot remove job owned by "@ + old.jobs@[id].owner@)
                &&& follow is Nothing
            } else {
                &&& resp == Some(Response::Accepted)
                &&& fin.jobs@ == old.jobs@.remove(id)
                &&& fin.last_runs@ == old.last_runs@.remove(id)
                &&& fin.last_execution_windows@ == old.last_execution_windows@.remove(id)
                &&& fin.running() == old.running()
                &&& fin.retry_state@ == old.retry_state@.remove(id)
                &&& follow matches Followup::DeleteJob(s) && s@ == id
            }
        },
        Request::ListJobs => {
            &&& unchanged(old, fin)
            &&& resp matches Some(Response::JobList(v)) && lists_jobs(v@, old.jobs@)
            &&& follow is Nothing
        },
        Request::GetJob(jid) => {
            &&& unchanged(old, fin)
            &&& resp matches Some(Response::JobDetail(o)) && (o is Some <==> old.jobs@.contains_key(
                jid.0@,
            )) && (o matches Some(j) ==> j.same(&old.jobs@[jid.0@]))
            &&& follow is Nothing
        },
        Request::StartJob(jid) => {
            let id = jid.0@;
            if !old.jobs@.contains_key(id) {
                unchanged(old, fin) && is_error(resp, "Job not found"@) && follow is Nothing
            } else if !may_modify(old.jobs@[id].owner@, uid) {
                &&& unchanged(old, fin)
                &&& is_error(resp, "Permission denied: Cannot start job owned by "@ + old.jobs@[id].owner@)
                &&& follow is Nothing
            } else if old.running().contains_key(id) {
                unchanged(old, fin) && is_error(resp, "Job is already running"@) && follow is Nothing
            } else {
                &&& resp == Some(Response::Accepted)
                &&& fin.jobs@ == old.jobs@
                &&& fin.last_runs@ == old.last_runs@
                &&& fin.last_execution_windows@ == old.last_execution_windows@
                &&& fin.retry_state@ == old.retry_state@
                &&& fin.running().contains_key(id)
                &&& fin.running().remove(id) == old.running()
                &&& fin.running()[id].scheduled_time == now
                &&& fin.running()[id].start_time == now
                &&& fin.running()[id].pid is None
                &&& is_execution_id(fin.running()[id].execution_id@)
                &&& follow matches Followup::Run(j) && j.same(&old.jobs@[id])
            }
        },
        Request::GetHistory { job_id, limit } => {
            &&& unchanged(old, fin)
            &&& resp is None
            &&& follow matches Followup::QueryHistory { job_id: s, limit: l } && s@ == job_id.0@
                && l == limit
        },
    }
}

/// A copy of every job of the table, in the table's order.
pub fn list_jobs(sched: &Scheduler) -> (r: Vec<Job>)
    requires
        sched.wf(),
    ensures
        lists_jobs(r@, sched.jobs@),
{
    let ents = &sched.jobs.entries;
    let mut out: Vec<Job> = Vec::new();
    let mut i: usize = 0;
    while i < ents.len()
        invariant
            sched.wf(),
            ents@ == sched.jobs.entries@,
            0 <= i <= ents@.len(),
            out@.len() == i,
            forall|x: int| 0 <= x < i ==> (#[trigger] out@[x]).same(&ents@[x].1),
        decreases ents@.len() - i,
    {
        out.push(ents[i].1.clone());
        i = i + 1;
    }
    proof {
        assert forall|x: int| 0 <= x < out@.len() implies sched.jobs@.contains_key(
            (#[trigger] out@[x]).id.0@,
        ) && out@[x].same(&sched.jobs@[out@[x].id.0@]) by {
            lemma_entry_lookup(ents@, x);
            assert(sched.jobs@[ents@[x].0@].id.0@ == ents@[x].0@);
        }
        assert(ids_unique(out@)) by {
            assert forall|a: int, b: int|
                0 <= a < out@.len() && 0 <= b < out@.len() && (#[trigger] out@[a]).id.0@ == (
                #[trigger] out@[b]).id.0@ implies a == b by {
                lemma_entry_lookup(ents@, a);
                lemma_entry_lookup(ents@, b);
                assert(sched.jobs@[ents@[a].0@].id.0@ == ents@[a].0@);
                assert(sched.jobs@[ents@[b].0@].id.0@ == ents@[b].0@);
            }
        }
        assert forall|k: Seq<char>| sched.jobs@.contains_key(k) implies #[trigger] has_id(
            out@,
            k,
        ) by {
            let x = choose|x: int| 0 <= x < ents@.len() && (#[trigger] ents@[x].0)@ == k;
            lemma_entry_lookup(ents@, x);
            assert(out@[x].id.0@ == k);
        }
    }
    out
}

fn denial(prefix: &str, owner: &String) -> (r: Option<Response>)
    ensures
        is_error(r, prefix@ + owner@),
{
    let mut text = prefix.to_owned();
    text.append(owner.as_str());
    Some(Response::Error(text))
}

fn error_text(text: &str) -> (r: Option<Response>)
    ensures
        is_error(r, text@),
{
    Some(Response::Error(text.to_owned()))
}

impl Scheduler {
    /// Decides a request of the peer with user id `uid` at `now`. The owner a
    /// client claims is ignored: a job added is owned by the requester's label.
    pub fn handle_request(&mut self, uid: u32, req: Request, now: i64) -> (r: (
        Option<Response>,
        Followup,
    ))
        requires
            old(self).wf(),
        ensures
            final(self).wf(),
            request_result(*old(self), *final(self), uid, req, now, r.0, r.1),
    {
        let requester: String = owner_label(uid).to_owned();
        match req {
            Request::AddJob(job) => {
                let denied = match self.jobs.get(job.id.0.as_str()) {
                    Some(existing) => {
                        if uid != 0 && existing.owner != requester {
                            Some(denial("Permission denied: Cannot overwrite job owned by ", &existing.owner))
                        } else {
                            None
                        }
                    },
                    None => None,
                };
                match denied {
                    Some(resp) => (resp, Followup::Nothing),
                    None => {
                        let mut job = job;
                        job.owner = requester;
                        let copy = job.clone();
                        let ghost before = self.jobs@;
                        let ghost id = job.id.0@;
                        self.add_job(job);
                        proof {
                            assert(self.jobs@.remove(id) =~= before.remove(id));
                        }
                        (Some(Response::Accepted), Followup::PersistJob(copy))
                    },
                }
            },
            Request::RemoveJob(jid) => {
                let denied = match self.jobs.get(jid.0.as_str()) {
                    Some(existing) => {
                        if uid != 0 && existing.owner != requester {
                            Some(denial("Permission denied: Cannot remove job owned by ", &existing.owner))
                        } else {
                            None
                        }
                    },
                    None => Some(error_text("Job not found")),
                };
                match denied {
                    Some(resp) => (resp, Followup::Nothing),
                    None => {
                        self.remove_job(jid.0.as_str());
                        (Some(Response::Accepted), Followup::DeleteJob(jid.0))
                    },
                }
            },
            Request::ListJobs => (Some(Response::JobList(list_jobs(self))), Followup::Nothing),
            Request::GetJob(jid) => {
                let found = match self.jobs.get(jid.0.as_str()) {
                    Some(j) => Some(j.clone()),
                    None => None,
                };
                (Some(Response::JobDetail(found)), Followup::Nothing)
            },
            Request::StartJob(jid) => {
                let decided = match self.jobs.get(jid.0.as_str()) {
                    Some(existing) => {
                        if uid != 0 && existing.owner != requester {
                            Err(denial("Permission denied: Cannot start job owned by ", &existing.owner))
                        } else if running_contains(&self.running_jobs, jid.0.as_str()) {
                            Err(error_text("Job is already running"))
                        } else {
                            Ok(existing.clone())
                        }
                    },
                    None => Err(error_text("Job not found")),
                };
                match decided {
                    Err(resp) => (resp, Followup::Nothing),
                    Ok(job) => {
                        let ctx = JobExecutionContext {
                            execution_id: new_execution_id(),
                            scheduled_time: now,
                            start_time: now,
                            pid: None,
                        };
                        let ghost before = self.running();
                        running_insert(&mut self.running_jobs, jid.0, ctx);
                        proof {
                            assert(self.running().remove(jid.0@) =~= before);
                        }
                        (Some(Response::Accepted), Followup::Run(job))
                    },
                }
            },
            Request::GetHistory { job_id, limit } => (
                None,
                Followup::QueryHistory { job_id: job_id.0, limit },
            ),
        }
    }
}

} // verus!
