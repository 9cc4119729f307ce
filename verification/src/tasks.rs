//! The durable task state machine and the worker's decisions: the
//! `queued -> running -> {succeeded | failed}` transitions with terminal
//! states absorbing, the generated per-wiki database password, the
//! provisioning context built from a dequeued job, and the terminal
//! write and event the worker produces for each outcome.

use vstd::prelude::*;
use crate::create::{JobPayload, new_v4_string, is_hex_lower, spec_task_id_shape};
use crate::env::WikifarmEnv;
use crate::events::{Event, EventModel, Status, spec_encode, event_model, encode_event,
    spec_is_terminal};
use crate::orchestrator::ProvisionContext;
use crate::strutil::{append_str, chars_to_string, str_to_chars};

verus! {

/// The durable record of a provisioning request. Timestamps are kept by
/// the store; the record models whether each has been set.
#[derive(Debug)]
pub struct TaskRecord {
    pub id: String,
    pub status: Status,
    pub progress: u8,
    pub created_by_user_id: u64,
    pub created_by_username: String,
    pub started: bool,
    pub finished: bool,
    pub wiki_id: Option<u64>,
    pub message: Option<String>,
}

impl TaskRecord {
    /// The task invariant: progress stays within 0..=100, a terminal
    /// task has its finish time set, and a running or terminal task has
    /// its start time set.
    pub open spec fn wf(&self) -> bool {
        &&& self.progress <= 100
        &&& (spec_is_terminal(self.status) ==> self.finished)
        &&& (self.status != Status::Queued ==> self.started)
    }

    /// The row the create endpoint inserts: queued, zero progress,
    /// nothing started or finished.
    pub fn new_queued(id: String, user_id: u64, username: String) -> (r: TaskRecord)
        ensures
            r.wf(),
            r.id == id,
            r.status == Status::Queued,
            r.progress == 0,
            r.created_by_user_id == user_id,
            r.created_by_username == username,
            !r.started,
            !r.finished,
            r.wiki_id is None,
            r.message is None,
    {
        TaskRecord {
            id,
            status: Status::Queued,
            progress: 0,
            created_by_user_id: user_id,
            created_by_username: username,
            started: false,
            finished: false,
            wiki_id: None,
            message: None,
        }
    }

    /// Entry to `running`: only a queued task starts, and its start time
    /// is set.
    pub fn start(&mut self)
        requires
            old(self).wf(),
            old(self).status == Status::Queued,
        ensures
            final(self).wf(),
            final(self).status == Status::Running,
            final(self).started,
            final(self).finished == old(self).finished,
            final(self).id == old(self).id,
            final(self).progress == old(self).progress,
            final(self).wiki_id == old(self).wiki_id,
            final(self).message == old(self).message,
    {
        self.status = Status::Running;
        self.started = true;
    }

    /// The worker's terminal write after a successful provision: only a
    /// non-terminal task finishes, with full progress, its finish time
    /// set, and the new wiki's id. Terminal states are absorbing: no
    /// transition accepts a terminal task.
    pub fn finish_success(&mut self, wiki_id: u64)
        requires
            old(self).wf(),
            !spec_is_terminal(old(self).status),
            old(self).status != Status::Queued,
        ensures
            final(self).wf(),
            final(self).status == Status::Succeeded,
            final(self).progress == 100,
            final(self).finished,
            final(self).wiki_id == Some(wiki_id),
            final(self).id == old(self).id,
            final(self).message == old(self).message,
    {
        self.status = Status::Succeeded;
        self.progress = 100;
        self.finished = true;
        self.wiki_id = Some(wiki_id);
    }

    /// The worker's terminal write after a failed provision: only a
    /// non-terminal task finishes, with its finish time set and the
    /// failure message recorded.
    pub fn finish_failure(&mut self, message: String)
        requires
            old(self).wf(),
            !spec_is_terminal(old(self).status),
            old(self).status != Status::Queued,
        ensures
            final(self).wf(),
            final(self).status == Status::Failed,
            final(self).finished,
            final(self).message == Some(message),
            final(self).id == old(self).id,
            final(self).wiki_id == old(self).wiki_id,
            final(self).progress == old(self).progress,
    {
        self.status = Status::Failed;
        self.finished = true;
        self.message = Some(message);
    }
}

/// Generates the per-wiki database password: a fresh random token of 32
/// lower-case hex characters.
pub fn fresh_db_password() -> (r: String)
    ensures
        r@.len() == 32,
        forall|i: int| 0 <= i < 32 ==> is_hex_lower(#[trigger] r@[i]),
{
    let token = new_v4_string();
    let v = str_to_chars(token.as_str());
    let mut out: Vec<char> = Vec::new();
    let mut i: usize = 0;
    while i < v.len()
        invariant
            i <= 36,
            v@.len() == 36,
            spec_task_id_shape(v@),
            out@.len() == i - (if i > 8 { 1int } else { 0 }) - (if i > 13 { 1int } else { 0 }) - (
            if i > 18 { 1int } else { 0 }) - (if i > 23 { 1int } else { 0 }),
            forall|k: int| 0 <= k < out@.len() ==> is_hex_lower(#[trigger] out@[k]),
        decreases v@.len() - i,
    {
        let c = v[i];
        if c != '-' {
            proof {
                assert(i != 8 && i != 13 && i != 18 && i != 23);
                assert(is_hex_lower(v@[i as int]));
            }
            out.push(c);
        } else {
            proof {
                assert(!is_hex_lower('-'));
                assert(i == 8 || i == 13 || i == 18 || i == 23);
            }
        }
        i = i + 1;
    }
    chars_to_string(&out)
}

/// Builds the provisioning context for a dequeued job: the slug names
/// the target directory, the per-wiki database and its user; the channel
/// is the task's.
pub fn provision_context(env: WikifarmEnv, job: &JobPayload, db_password: String) -> (r:
    ProvisionContext)
    ensures
        r.name@ == job.name@,
        r.slug@ == job.slug@,
        r.language@ == job.language@,
        r.visibility@ == job.visibility@,
        r.owner_user_id == job.owner_id,
        r.owner_username@ == job.owner_username@,
        r.channel@ == "tasks:"@ + job.task_id@,
        r.target_dir@ == r.env.wikifarm_dir@ + "/"@ + job.slug@,
        r.db_name@ == job.slug@,
        r.db_user@ == job.slug@,
        r.db_password == db_password,
        r.env == env,
{
    let mut channel: Vec<char> = Vec::new();
    append_str(&mut channel, "tasks:");
    append_str(&mut channel, job.task_id.as_str());
    let mut target: Vec<char> = Vec::new();
    append_str(&mut target, env.wikifarm_dir.as_str());
    append_str(&mut target, "/");
    append_str(&mut target, job.slug.as_str());
    ProvisionContext {
        env,
        name: job.name.clone(),
        slug: job.slug.clone(),
        language: job.language.clone(),
        visibility: job.visibility.clone(),
        owner_user_id: job.owner_id,
        owner_username: job.owner_username.clone(),
        channel: chars_to_string(&channel),
        target_dir: chars_to_string(&target),
        db_name: job.slug.clone(),
        db_user: job.slug.clone(),
        db_password,
    }
}

/// The terminal event the worker publishes for a job outcome.
#[derive(Debug)]
pub struct WorkerTerminal {
    pub event: Event,
    pub event_json: String,
}

/// Lays out the worker's terminal event: a status event carrying the new
/// wiki's id on success, or the failure message on failure; never a
/// progress event.
pub fn worker_terminal(outcome: &Result<u64, String>) -> (r: WorkerTerminal)
    ensures
        match outcome {
            Ok(wiki_id) => event_model(&r.event) == (EventModel::Status {
                status: Status::Succeeded,
                wiki_id: Some(*wiki_id),
                message: None,
            }),
            Err(m) => event_model(&r.event) == (EventModel::Status {
                status: Status::Failed,
                wiki_id: None,
                message: Some(m@),
            }),
        },
        r.event_json@ == spec_encode(event_model(&r.event)),
        r.event matches Event::Status { status, wiki_id: _, message: _ }
            && spec_is_terminal(status),
{
    let event = match outcome {
        Ok(wiki_id) => Event::Status {
            status: Status::Succeeded,
            wiki_id: Some(*wiki_id),
            message: None,
        },
        Err(m) => Event::Status { status: Status::Failed, wiki_id: None, message: Some(m.clone()) },
    };
    let event_json = encode_event(&event);
    WorkerTerminal { event, event_json }
}


/// The statement the create endpoint inserts the queued task row with:
/// type `create_wiki`, status `queued`, zero progress, the caller as
/// creator; binds are the task id, the caller id and the caller name.
pub fn insert_task_sql() -> (r: &'static str)
    ensures
        r@ == "INSERT INTO wikifarm_tasks (id, type, status, progress, created_by_user_id, created_by_username) VALUES (?, 'create_wiki', 'queued', 0, ?, ?)"@,
{
    "INSERT INTO wikifarm_tasks (id, type, status, progress, created_by_user_id, created_by_username) VALUES (?, 'create_wiki', 'queued', 0, ?, ?)"
}

/// The worker's entry-to-running write: status `running` and the start
/// time set, as `TaskRecord::start` states; the bind is the task id.
pub fn task_running_sql() -> (r: &'static str)
    ensures
        r@ == "UPDATE wikifarm_tasks SET status='running', started_at=NOW() WHERE id = ?"@,
{
    "UPDATE wikifarm_tasks SET status='running', started_at=NOW() WHERE id = ?"
}

/// The worker's terminal write after success: status `succeeded`, full
/// progress, the finish time and the new wiki id, as
/// `TaskRecord::finish_success` states; binds are the wiki id and the
/// task id.
pub fn task_succeeded_sql() -> (r: &'static str)
    ensures
        r@ == "UPDATE wikifarm_tasks SET status='succeeded', progress=100, finished_at=NOW(), wiki_id=? WHERE id = ?"@,
{
    "UPDATE wikifarm_tasks SET status='succeeded', progress=100, finished_at=NOW(), wiki_id=? WHERE id = ?"
}

/// The worker's terminal write after failure: status `failed`, the
/// finish time and the failure message, as `TaskRecord::finish_failure`
/// states; binds are the message and the task id.
pub fn task_failed_sql() -> (r: &'static str)
    ensures
        r@ == "UPDATE wikifarm_tasks SET status='failed', finished_at=NOW(), message=? WHERE id = ?"@,
{
    "UPDATE wikifarm_tasks SET status='failed', finished_at=NOW(), message=? WHERE id = ?"
}

} // verus!
