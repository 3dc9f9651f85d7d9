//! The scheduler: the ready queue, the worker registry, the cancellation
//! set and the lease table, and the operations that workers and the
//! management service call on them.

use crate::entities::{clone_hash, hash_text, OutputFile};
use crate::error::ErrorKind;
use crate::files::FileAuthTag;
use crate::ids::{ExternalID, IdKind};
use crate::names::names_of;
use crate::repository::{advanced, applied, rewritten, Repository, TaskRow};
use crate::staging::{is_staging_of, stage, stageable, StagedTask};
use crate::table::{IdMap, NameMap};
use crate::task::{
    lemma_transition_advances, rank, Task, TaskEvent, TaskEventView, TaskOutcome,
    TaskOutcomeView, TaskStatus, LEASE_SECONDS,
};
use vstd::prelude::*;

verus! {

/// The seconds between two ticks of the failure detector.
pub const TICK_SECONDS: u64 = 1;

/// What the registry knows of a worker's state.
#[derive(Clone, Copy, Debug, PartialEq, Eq, Structural)]
pub enum WorkerStatus {
    Idle,
    Executing,
    Lost,
}

/// What a worker reports of itself in a heartbeat.
#[derive(Clone, Copy, Debug, PartialEq, Eq, Structural)]
pub enum ExecutorStatus {
    Idle,
    Executing,
}

/// What the scheduler tells a worker in answer to a heartbeat.
#[derive(Clone, Copy, Debug, PartialEq, Eq, Structural)]
pub enum ExecutorCommand {
    NoAction,
    NewTask,
    Stop,
}

/// The registry's record of a worker.
#[derive(Clone, Copy, Debug, PartialEq, Eq)]
pub struct WorkerEntry {
    pub last_heartbeat: u64,
    pub status: WorkerStatus,
    pub assigned_task: Option<ExternalID>,
}

/// What a pull comes to.
pub enum PullOutcome {
    /// The task at the head of the queue, staged and now running.
    Staged(StagedTask),
    /// No task is ready.
    Empty,
    /// The task at the head of the queue has been canceled.
    Canceled(ExternalID),
    /// The task at the head of the queue could not be started.
    Failed { task: ExternalID, error: ErrorKind },
}

/// The state of the scheduler.
pub struct Scheduler {
    /// The ready queue, oldest first.
    pub queue: Vec<ExternalID>,
    /// The worker registry, by worker name.
    pub workers: NameMap<WorkerEntry>,
    /// The tasks whose cancellation has been asked for.
    pub cancellations: IdMap<()>,
    /// The deadline of each lease, by task.
    pub leases: IdMap<u64>,
}

/// The step from `before` to `after` hands the task `id` to a worker: it
/// takes it from `Staged` to `Running`.
pub open spec fn pulled(
    before: Map<ExternalID, TaskRow>,
    after: Map<ExternalID, TaskRow>,
    id: ExternalID,
) -> bool {
    &&& before.contains_key(id)
    &&& before[id].task.status == TaskStatus::Staged
    &&& after.contains_key(id)
    &&& after[id].task.status == TaskStatus::Running
}

/// In a history in which no step loses a task or takes one back, a task
/// that has been handed to a worker is at least running ever after.
pub proof fn lemma_pulled_stays_pulled(
    history: Seq<Map<ExternalID, TaskRow>>,
    first: int,
    later: int,
    id: ExternalID,
)
    requires
        forall|k: int|
            0 <= k < history.len() - 1 ==> advanced(#[trigger] history[k], history[k + 1]),
        0 <= first < later < history.len(),
        pulled(history[first], history[first + 1], id),
    ensures
        history[later].contains_key(id),
        rank(history[later][id].task.status) >= rank(TaskStatus::Running),
    decreases later - first,
{
    if later > first + 1 {
        lemma_pulled_stays_pulled(history, first, later - 1, id);
        assert(advanced(history[later - 1], history[later - 1 + 1]));
        assert(history[later - 1].contains_key(id));
    }
}

/// A task is handed to a worker at most once: in a history in which no step
/// loses a task or takes one back, as every operation of the services
/// ensures, no step after the one that pulled a task pulls it again.
pub proof fn lemma_pulled_at_most_once(
    history: Seq<Map<ExternalID, TaskRow>>,
    first: int,
    second: int,
    id: ExternalID,
)
    requires
        forall|k: int|
            0 <= k < history.len() - 1 ==> advanced(#[trigger] history[k], history[k + 1]),
        0 <= first < second < history.len() - 1,
        pulled(history[first], history[first + 1], id),
    ensures
        !pulled(history[second], history[second + 1], id),
{
    lemma_pulled_stays_pulled(history, first, second, id);
}

/// The registry's record of a worker that has just pulled `task` at `now`.
pub open spec fn leased_entry(task: ExternalID, now: u64) -> WorkerEntry {
    WorkerEntry { last_heartbeat: now, status: WorkerStatus::Executing, assigned_task: Some(task) }
}

/// What a pull of the task `id` from the head of the queue does, where the
/// queue is not empty.
pub open spec fn pull_effect(
    before: &Scheduler,
    repository_before: &Repository,
    after: &Scheduler,
    repository_after: &Repository,
    id: ExternalID,
    worker: Seq<char>,
    now: u64,
    outcome: PullOutcome,
) -> bool {
    let tasks = repository_before.tasks@;
    if before.cancellations@.contains_key(id) {
        &&& outcome matches PullOutcome::Canceled(canceled)
        &&& canceled == id
        &&& repository_after.tasks == repository_before.tasks
        &&& after.workers == before.workers
        &&& after.leases == before.leases
    } else if id.kind != IdKind::Task || !tasks.contains_key(id) {
        &&& outcome matches PullOutcome::Failed { task, error }
        &&& task == id
        &&& error == if id.kind != IdKind::Task {
            ErrorKind::InvalidArgument
        } else {
            ErrorKind::NotFound
        }
        &&& repository_after.tasks == repository_before.tasks
        &&& after.workers == before.workers
        &&& after.leases == before.leases
    } else if !stageable(repository_before, &tasks[id].task) {
        &&& after.workers == before.workers
        &&& after.leases == before.leases
        &&& outcome matches PullOutcome::Failed { task, error }
        &&& task == id
        &&& match applied(tasks, id, TaskEventView::ResourceMissing) {
            Ok(failed) => error == ErrorKind::NotFound && rewritten(
                tasks,
                repository_after.tasks@,
                id,
                failed,
            ),
            Err(refusal) => error == refusal && repository_after.tasks
                == repository_before.tasks,
        }
    } else {
        match applied(tasks, id, TaskEventView::Pull { worker, now }) {
            Ok(running) => {
                &&& outcome matches PullOutcome::Staged(staged)
                &&& is_staging_of(&staged, repository_before, &tasks[id].task)
                &&& rewritten(tasks, repository_after.tasks@, id, running)
                &&& tasks[id].task.status == TaskStatus::Staged
                &&& running.status == TaskStatus::Running
                &&& after.workers@ == before.workers@.insert(worker, leased_entry(id, now))
                &&& after.leases@ == before.leases@.insert(id, (now + LEASE_SECONDS) as u64)
            },
            Err(refusal) => {
                &&& outcome matches PullOutcome::Failed { task, error }
                &&& task == id
                &&& error == refusal
                &&& repository_after.tasks == repository_before.tasks
                &&& after.workers == before.workers
                &&& after.leases == before.leases
            },
        }
    }
}

/// The registry's record of `worker` as a heartbeat finds it: the record on
/// file, or that of a worker never seen before.
pub open spec fn known_entry(workers: Map<Seq<char>, WorkerEntry>, worker: Seq<char>, now: u64) -> WorkerEntry {
    if workers.contains_key(worker) {
        workers[worker]
    } else {
        WorkerEntry { last_heartbeat: now, status: WorkerStatus::Idle, assigned_task: None }
    }
}

/// The state of a worker that reports `status`.
pub open spec fn reported(status: ExecutorStatus) -> WorkerStatus {
    match status {
        ExecutorStatus::Idle => WorkerStatus::Idle,
        ExecutorStatus::Executing => WorkerStatus::Executing,
    }
}

/// Whether a heartbeat of `worker` is answered with `Stop`: the task that
/// the worker holds is in the cancellation set.
pub open spec fn must_stop(before: &Scheduler, worker: Seq<char>, now: u64) -> bool {
    known_entry(before.workers@, worker, now).assigned_task matches Some(task)
        && before.cancellations@.contains_key(task)
}

/// What a heartbeat of `worker` does.
pub open spec fn heartbeat_effect(
    before: &Scheduler,
    repository_before: &Repository,
    after: &Scheduler,
    repository_after: &Repository,
    worker: Seq<char>,
    status: ExecutorStatus,
    now: u64,
    command: ExecutorCommand,
) -> bool {
    let tasks = repository_before.tasks@;
    let entry = known_entry(before.workers@, worker, now);
    if must_stop(before, worker, now) {
        let task = entry.assigned_task.unwrap();
        &&& command == ExecutorCommand::Stop
        &&& after.workers@ == before.workers@.insert(
            worker,
            WorkerEntry { last_heartbeat: now, status: WorkerStatus::Idle, assigned_task: None },
        )
        &&& after.leases@ == before.leases@.remove(task)
        &&& if task.kind == IdKind::Task && tasks.contains_key(task) {
            match applied(tasks, task, TaskEventView::Cancel { caller: tasks[task].task.creator@ }) {
                Ok(canceled) => rewritten(tasks, repository_after.tasks@, task, canceled),
                Err(_) => repository_after.tasks == repository_before.tasks,
            }
        } else {
            repository_after.tasks == repository_before.tasks
        }
    } else {
        &&& command == if status == ExecutorStatus::Idle && before.queue@.len() > 0 {
            ExecutorCommand::NewTask
        } else {
            ExecutorCommand::NoAction
        }
        &&& after.workers@ == before.workers@.insert(
            worker,
            WorkerEntry {
                last_heartbeat: now,
                status: reported(status),
                assigned_task: entry.assigned_task,
            },
        )
        &&& if status == ExecutorStatus::Executing && entry.assigned_task is Some {
            let task = entry.assigned_task.unwrap();
            match applied(tasks, task, TaskEventView::Heartbeat { worker }) {
                Ok(extended) => rewritten(tasks, repository_after.tasks@, task, extended)
                    && extended.lease_deadline is Some && after.leases@ == before.leases@.insert(
                    task,
                    extended.lease_deadline.unwrap(),
                ),
                Err(_) => repository_after.tasks == repository_before.tasks && after.leases
                    == before.leases,
            }
        } else {
            repository_after.tasks == repository_before.tasks && after.leases == before.leases
        }
    }
}

/// What asking for the cancellation of the task `id` does, where the task is
/// on record.
pub open spec fn cancel_effect(
    before: &Scheduler,
    repository_before: &Repository,
    after: &Scheduler,
    repository_after: &Repository,
    id: ExternalID,
) -> bool {
    let tasks = repository_before.tasks@;
    &&& after.cancellations@ == before.cancellations@.insert(id, ())
    &&& if tasks[id].task.status == TaskStatus::Staged && before.queue@.contains(id) {
        match applied(tasks, id, TaskEventView::Cancel { caller: tasks[id].task.creator@ }) {
            Ok(canceled) => rewritten(tasks, repository_after.tasks@, id, canceled)
                && canceled.status == TaskStatus::Canceled,
            Err(_) => repository_after.tasks == repository_before.tasks,
        }
    } else {
        repository_after.tasks == repository_before.tasks
    }
}

/// The output file `after` is `before` but for its authentication tag.
pub open spec fn same_but_cmac(before: OutputFile, after: OutputFile) -> bool {
    &&& after.id == before.id
    &&& after.owner@ == before.owner@
    &&& after.url@ == before.url@
    &&& after.crypto == before.crypto
    &&& hash_text(after.hash) == hash_text(before.hash)
}

/// The slot `slot` is tagged, and the output file `file` is bound to it.
pub open spec fn tags_file(
    assigned: Map<Seq<char>, ExternalID>,
    tags: Map<Seq<char>, FileAuthTag>,
    slot: Seq<char>,
    file: ExternalID,
) -> bool {
    tags.contains_key(slot) && assigned.contains_key(slot) && assigned[slot] == file
}

/// The output files `after` are the files `before` with the tags of a
/// finished task written to them: a file bound to a tagged slot has the tag
/// of such a slot, every other file is as it was.
pub open spec fn tags_persisted(
    before: Map<ExternalID, OutputFile>,
    after: Map<ExternalID, OutputFile>,
    assigned: Map<Seq<char>, ExternalID>,
    tags: Map<Seq<char>, FileAuthTag>,
) -> bool {
    &&& after.dom() == before.dom()
    &&& forall|file: ExternalID| #[trigger]
        before.contains_key(file) ==> same_but_cmac(before[file], after[file]) && if exists|
            slot: Seq<char>,
        |
            tags_file(assigned, tags, slot, file) {
            exists|slot: Seq<char>|
                tags_file(assigned, tags, slot, file) && after[file].cmac == Some(tags[slot])
        } else {
            after[file].cmac == before[file].cmac
        }
}

/// The tags that `outcome` carries.
pub open spec fn tags_of(outcome: TaskOutcomeView) -> Map<Seq<char>, FileAuthTag> {
    match outcome {
        TaskOutcomeView::Succeeded { summary, tags } => tags,
        TaskOutcomeView::Failed { reason, detail } => Map::empty(),
    }
}

/// The registry after `worker` has given up its task.
pub open spec fn released(workers: Map<Seq<char>, WorkerEntry>, worker: Seq<char>) -> Map<
    Seq<char>,
    WorkerEntry,
> {
    if workers.contains_key(worker) {
        workers.insert(
            worker,
            WorkerEntry {
                last_heartbeat: workers[worker].last_heartbeat,
                status: WorkerStatus::Idle,
                assigned_task: None,
            },
        )
    } else {
        workers
    }
}

/// Writes the tags of a finished task to the output files bound to the
/// tagged slots.
fn persist_tags(
    repository: &mut Repository,
    assigned: &NameMap<ExternalID>,
    tags: &NameMap<FileAuthTag>,
)
    requires
        old(repository).wf(),
    ensures
        final(repository).wf(),
        final(repository).tasks == old(repository).tasks,
        final(repository).users == old(repository).users,
        final(repository).functions == old(repository).functions,
        final(repository).inputs == old(repository).inputs,
        tags_persisted(old(repository).outputs@, final(repository).outputs@, assigned@, tags@),
{
    let n = tags.len();
    let mut i: usize = 0;
    while i < n
        invariant
            i <= n,
            n == tags.entries().len(),
            tags.listed(),
            repository.wf(),
            repository.tasks == old(repository).tasks,
            repository.users == old(repository).users,
            repository.functions == old(repository).functions,
            repository.inputs == old(repository).inputs,
            repository.outputs@.dom() == old(repository).outputs@.dom(),
            forall|file: ExternalID| #[trigger]
                old(repository).outputs@.contains_key(file) ==> same_but_cmac(
                    old(repository).outputs@[file],
                    repository.outputs@[file],
                ),
            forall|file: ExternalID| #[trigger]
                old(repository).outputs@.contains_key(file) ==> if exists|j: int|
                    0 <= j < i && tags_file(
                        assigned@,
                        tags@,
                        (#[trigger] tags.entries()[j]).0@,
                        file,
                    ) {
                    exists|j: int|
                        0 <= j < i && tags_file(
                            assigned@,
                            tags@,
                            (#[trigger] tags.entries()[j]).0@,
                            file,
                        ) && repository.outputs@[file].cmac == Some(tags.entries()[j].1)
                } else {
                    repository.outputs@[file].cmac == old(repository).outputs@[file].cmac
                },
        decreases n - i,
    {
        let slot = tags.name_at(i);
        let tag = *tags.value_at(i);
        let ghost outputs_before = repository.outputs@;
        let target: Option<ExternalID> = match assigned.get(slot) {
            Some(file) => Some(*file),
            None => None,
        };
        let rewritten_file: Option<OutputFile> = match target {
            None => None,
            Some(file) => match repository.get_output(&file) {
                None => None,
                Some(record) => Some(
                    OutputFile {
                        id: record.id,
                        owner: record.owner.clone(),
                        url: record.url.clone(),
                        crypto: record.crypto,
                        cmac: Some(tag),
                        hash: clone_hash(&record.hash),
                    },
                ),
            },
        };
        match rewritten_file {
            None => {},
            Some(record) => {
                let _ = repository.put_output(record);
                assert(repository.outputs@.dom() =~= old(repository).outputs@.dom());
            },
        }
        proof {
            let entry = tags.entries()[i as int];
            assert(tags@.contains_key(entry.0@));
            assert forall|file: ExternalID| #[trigger]
                old(repository).outputs@.contains_key(file) implies if exists|j: int|
                0 <= j < i + 1 && tags_file(
                    assigned@,
                    tags@,
                    (#[trigger] tags.entries()[j]).0@,
                    file,
                ) {
                exists|j: int|
                    0 <= j < i + 1 && tags_file(
                        assigned@,
                        tags@,
                        (#[trigger] tags.entries()[j]).0@,
                        file,
                    ) && repository.outputs@[file].cmac == Some(tags.entries()[j].1)
            } else {
                repository.outputs@[file].cmac == old(repository).outputs@[file].cmac
            } by {
                let hit_now = tags_file(assigned@, tags@, entry.0@, file);
                if hit_now {
                    assert(target == Some(file));
                    assert(repository.outputs@[file].cmac == Some(entry.1));
                    assert(0 <= i < i + 1 && tags_file(
                        assigned@,
                        tags@,
                        tags.entries()[i as int].0@,
                        file,
                    ));
                } else {
                    assert(repository.outputs@[file] == outputs_before[file]);
                    if exists|j: int|
                        0 <= j < i && tags_file(
                            assigned@,
                            tags@,
                            (#[trigger] tags.entries()[j]).0@,
                            file,
                        ) {
                        let j = choose|j: int|
                            0 <= j < i && tags_file(
                                assigned@,
                                tags@,
                                (#[trigger] tags.entries()[j]).0@,
                                file,
                            ) && outputs_before[file].cmac == Some(tags.entries()[j].1);
                        assert(0 <= j < i + 1 && tags_file(
                            assigned@,
                            tags@,
                            tags.entries()[j].0@,
                            file,
                        ));
                    } else {
                        if exists|j: int|
                            0 <= j < i + 1 && tags_file(
                                assigned@,
                                tags@,
                                (#[trigger] tags.entries()[j]).0@,
                                file,
                            ) {
                            let j = choose|j: int|
                                0 <= j < i + 1 && tags_file(
                                    assigned@,
                                    tags@,
                                    (#[trigger] tags.entries()[j]).0@,
                                    file,
                                );
                            assert(j < i);
                        }
                    }
                }
            }
        }
        i += 1;
    }
    proof {
        assert forall|file: ExternalID| #[trigger]
            old(repository).outputs@.contains_key(file) implies if exists|slot: Seq<char>|
            tags_file(assigned@, tags@, slot, file) {
            exists|slot: Seq<char>|
                tags_file(assigned@, tags@, slot, file) && repository.outputs@[file].cmac == Some(
                    tags@[slot],
                )
        } else {
            repository.outputs@[file].cmac == old(repository).outputs@[file].cmac
        } by {
            if exists|slot: Seq<char>| tags_file(assigned@, tags@, slot, file) {
                let slot = choose|slot: Seq<char>| tags_file(assigned@, tags@, slot, file);
                let k = choose|k: int|
                    0 <= k < tags.entries().len() && (#[trigger] tags.entries()[k]).0@ == slot;
                assert(0 <= k < n && tags_file(assigned@, tags@, tags.entries()[k].0@, file));
                let j = choose|j: int|
                    0 <= j < n && tags_file(
                        assigned@,
                        tags@,
                        (#[trigger] tags.entries()[j]).0@,
                        file,
                    ) && repository.outputs@[file].cmac == Some(tags.entries()[j].1);
                assert(tags@[tags.entries()[j].0@] == tags.entries()[j].1);
                assert(tags_file(assigned@, tags@, tags.entries()[j].0@, file)
                    && repository.outputs@[file].cmac == Some(tags@[tags.entries()[j].0@]));
            } else {
                if exists|j: int|
                    0 <= j < n && tags_file(
                        assigned@,
                        tags@,
                        (#[trigger] tags.entries()[j]).0@,
                        file,
                    ) {
                    let j = choose|j: int|
                        0 <= j < n && tags_file(
                            assigned@,
                            tags@,
                            (#[trigger] tags.entries()[j]).0@,
                            file,
                        );
                    assert(tags_file(assigned@, tags@, tags.entries()[j].0@, file));
                }
            }
        }
    }
}

/// The lease of the task `id` has run out at `now`.
pub open spec fn lease_expired(leases: Map<ExternalID, u64>, id: ExternalID, now: u64) -> bool {
    leases.contains_key(id) && leases[id] < now
}

/// The worker `worker` is found lost at `now`: it has not been found lost
/// before, and its last heartbeat is more than thirty seconds old or the
/// lease of its task has run out.
pub open spec fn found_lost(before: &Scheduler, worker: Seq<char>, now: u64) -> bool {
    &&& before.workers@.contains_key(worker)
    &&& before.workers@[worker].status != WorkerStatus::Lost
    &&& before.workers@[worker].last_heartbeat + LEASE_SECONDS < now || (
    before.workers@[worker].assigned_task matches Some(task) && lease_expired(
        before.leases@,
        task,
        now,
    ))
}

/// The task `id` is held by a worker that is found lost at `now`.
pub open spec fn orphaned(before: &Scheduler, id: ExternalID, now: u64) -> bool {
    exists|worker: Seq<char>| #[trigger]
        found_lost(before, worker, now) && before.workers@[worker].assigned_task == Some(id)
}

/// The row `after` is `before` with `event` applied to its task where
/// `tasks` lets it be applied, and `before` itself where not.
pub open spec fn row_after(
    tasks: Map<ExternalID, crate::repository::TaskRow>,
    id: ExternalID,
    event: TaskEventView,
    after: crate::repository::TaskRow,
) -> bool {
    match applied(tasks, id, event) {
        Ok(changed) => after.task@ == changed && after.task.id == id && after.version
            == crate::repository::next_version(tasks[id].version),
        Err(_) => after == tasks[id],
    }
}

/// What a tick at `now` does: every task whose lease has run out fails with
/// `LeaseExpired`, every other task held by a worker found lost fails with
/// `WorkerLost`, their leases end, and the workers found lost are marked so
/// and hold no task any more.
pub open spec fn tick_effect(
    before: &Scheduler,
    repository_before: &Repository,
    after: &Scheduler,
    repository_after: &Repository,
    now: u64,
) -> bool {
    let tasks = repository_before.tasks@;
    &&& repository_after.tasks@.dom() == tasks.dom()
    &&& forall|id: ExternalID| #[trigger]
        tasks.contains_key(id) ==> if lease_expired(before.leases@, id, now) {
            row_after(tasks, id, TaskEventView::LeaseExpired, repository_after.tasks@[id])
        } else if orphaned(before, id, now) {
            row_after(tasks, id, TaskEventView::WorkerLost, repository_after.tasks@[id])
        } else {
            repository_after.tasks@[id] == tasks[id]
        }
    &&& forall|id: ExternalID|
        #![trigger after.leases@.contains_key(id)]
        #![trigger before.leases@.contains_key(id)]
        after.leases@.contains_key(id) <==> before.leases@.contains_key(id) && !lease_expired(
            before.leases@,
            id,
            now,
        ) && !orphaned(before, id, now)
    &&& forall|id: ExternalID| #[trigger]
        after.leases@.contains_key(id) ==> after.leases@[id] == before.leases@[id]
    &&& after.workers@.dom() == before.workers@.dom()
    &&& forall|worker: Seq<char>| #[trigger]
        before.workers@.contains_key(worker) ==> after.workers@[worker] == if found_lost(
            before,
            worker,
            now,
        ) {
            WorkerEntry {
                last_heartbeat: before.workers@[worker].last_heartbeat,
                status: WorkerStatus::Lost,
                assigned_task: None,
            }
        } else {
            before.workers@[worker]
        }
}

/// Applies `event`, which is `LeaseExpired` or `WorkerLost`, to each task of
/// `ids` that it can be applied to.
fn fail_all(repository: &mut Repository, ids: &Vec<ExternalID>, event: &TaskEvent)
    requires
        old(repository).wf(),
        event is LeaseExpired || event is WorkerLost,
    ensures
        final(repository).wf(),
        final(repository).same_but_tasks(old(repository)),
        advanced(old(repository).tasks@, final(repository).tasks@),
        final(repository).tasks@.dom() == old(repository).tasks@.dom(),
        forall|id: ExternalID| #[trigger]
            old(repository).tasks@.contains_key(id) ==> if ids@.contains(id) {
                row_after(old(repository).tasks@, id, event@, final(repository).tasks@[id])
            } else {
                final(repository).tasks@[id] == old(repository).tasks@[id]
            },
{
    let mut k: usize = 0;
    while k < ids.len()
        invariant
            k <= ids@.len(),
            event is LeaseExpired || event is WorkerLost,
            repository.wf(),
            repository.same_but_tasks(old(repository)),
            advanced(old(repository).tasks@, repository.tasks@),
            repository.tasks@.dom() == old(repository).tasks@.dom(),
            forall|id: ExternalID| #[trigger]
                old(repository).tasks@.contains_key(id) ==> if ids@.take(k as int).contains(id) {
                    row_after(old(repository).tasks@, id, event@, repository.tasks@[id])
                } else {
                    repository.tasks@[id] == old(repository).tasks@[id]
                },
        decreases ids@.len() - k,
    {
        let id = ids[k];
        let ghost tasks_before = repository.tasks@;
        proof {
            if applied(tasks_before, id, event@) is Ok {
                lemma_transition_advances(tasks_before[id].task@, event@);
            }
        }
        let _ = repository.transact(&id, event);
        proof {
            let done = ids@.take(k as int);
            let next = ids@.take(k + 1);
            assert(next =~= done.push(id));
            assert forall|other: ExternalID| next.contains(other) <==> (done.contains(other)
                || other == id) by {
                if done.contains(other) {
                    let j = choose|j: int| 0 <= j < done.len() && done[j] == other;
                    assert(next[j] == other);
                }
                if other == id {
                    assert(next[k as int] == other);
                }
            }
            assert(repository.tasks@.dom() =~= old(repository).tasks@.dom());
            assert forall|other: ExternalID| #[trigger]
                old(repository).tasks@.contains_key(other) implies if next.contains(other) {
                row_after(old(repository).tasks@, other, event@, repository.tasks@[other])
            } else {
                repository.tasks@[other] == old(repository).tasks@[other]
            } by {
                if other != id {
                    assert(repository.tasks@[other] == tasks_before[other]);
                }
            }
        }
        k += 1;
    }
    proof {
        assert(ids@.take(k as int) =~= ids@);
    }
}

/// Ends the lease of each task of `ids`.
fn end_leases(leases: &mut IdMap<u64>, ids: &Vec<ExternalID>)
    ensures
        forall|id: ExternalID|
            #![trigger final(leases)@.contains_key(id)]
            #![trigger old(leases)@.contains_key(id)]
            final(leases)@.contains_key(id) <==> old(leases)@.contains_key(id) && !ids@.contains(
                id,
            ),
        forall|id: ExternalID| #[trigger]
            final(leases)@.contains_key(id) ==> final(leases)@[id] == old(leases)@[id],
{
    let mut k: usize = 0;
    while k < ids.len()
        invariant
            k <= ids@.len(),
            forall|id: ExternalID|
                leases@.contains_key(id) <==> old(leases)@.contains_key(id) && !ids@.take(
                    k as int,
                ).contains(id),
            forall|id: ExternalID| #[trigger]
                leases@.contains_key(id) ==> leases@[id] == old(leases)@[id],
        decreases ids@.len() - k,
    {
        let id = ids[k];
        let _ = leases.remove(&id);
        proof {
            let done = ids@.take(k as int);
            let next = ids@.take(k + 1);
            assert(next =~= done.push(id));
            assert forall|other: ExternalID| next.contains(other) <==> (done.contains(other)
                || other == id) by {
                if done.contains(other) {
                    let j = choose|j: int| 0 <= j < done.len() && done[j] == other;
                    assert(next[j] == other);
                }
                if other == id {
                    assert(next[k as int] == other);
                }
            }
        }
        k += 1;
    }
    proof {
        assert(ids@.take(k as int) =~= ids@);
    }
}

/// Marks each worker of `lost` as lost and takes its task from it.
fn mark_lost(workers: &mut NameMap<WorkerEntry>, lost: &Vec<String>)
    requires
        forall|i: int| 0 <= i < lost@.len() ==> old(workers)@.contains_key(#[trigger] lost@[i]@),
    ensures
        final(workers)@.dom() == old(workers)@.dom(),
        forall|worker: Seq<char>| #[trigger]
            old(workers)@.contains_key(worker)
                ==> final(workers)@[worker] == if names_of(lost@).contains(
                worker,
            ) {
                WorkerEntry {
                    last_heartbeat: old(workers)@[worker].last_heartbeat,
                    status: WorkerStatus::Lost,
                    assigned_task: None,
                }
            } else {
                old(workers)@[worker]
            },
{
    let mut k: usize = 0;
    while k < lost.len()
        invariant
            k <= lost@.len(),
            forall|i: int| 0 <= i < lost@.len()
                ==> old(workers)@.contains_key(#[trigger] lost@[i]@),
            workers@.dom() == old(workers)@.dom(),
            forall|worker: Seq<char>| #[trigger]
                old(workers)@.contains_key(worker) ==> workers@[worker] == if exists|i: int|
                    0 <= i < k && #[trigger] lost@[i]@ == worker {
                    WorkerEntry {
                        last_heartbeat: old(workers)@[worker].last_heartbeat,
                        status: WorkerStatus::Lost,
                        assigned_task: None,
                    }
                } else {
                    old(workers)@[worker]
                },
        decreases lost@.len() - k,
    {
        let name = &lost[k];
        let ghost before = workers@;
        let last_heartbeat = match workers.get(name) {
            Some(entry) => entry.last_heartbeat,
            None => 0,
        };
        workers.insert(
            name.clone(),
            WorkerEntry { last_heartbeat, status: WorkerStatus::Lost, assigned_task: None },
        );
        proof {
            assert(before.contains_key(lost@[k as int]@));
            assert(workers@.dom() =~= old(workers)@.dom());
            assert forall|worker: Seq<char>| #[trigger]
                old(workers)@.contains_key(worker) implies workers@[worker] == if exists|i: int|
                0 <= i < k + 1 && #[trigger] lost@[i]@ == worker {
                WorkerEntry {
                    last_heartbeat: old(workers)@[worker].last_heartbeat,
                    status: WorkerStatus::Lost,
                    assigned_task: None,
                }
            } else {
                old(workers)@[worker]
            } by {
                if worker == lost@[k as int]@ {
                    assert(0 <= k < k + 1 && lost@[k as int]@ == worker);
                } else {
                    if exists|i: int| 0 <= i < k && #[trigger] lost@[i]@ == worker {
                        let i = choose|i: int| 0 <= i < k && #[trigger] lost@[i]@ == worker;
                        assert(0 <= i < k + 1 && lost@[i]@ == worker);
                    } else {
                        if exists|i: int| 0 <= i < k + 1 && #[trigger] lost@[i]@ == worker {
                            let i = choose|i: int| 0 <= i < k + 1 && #[trigger] lost@[i]@ == worker;
                            assert(i < k);
                        }
                    }
                }
            }
        }
        k += 1;
    }
    proof {
        assert forall|worker: Seq<char>|
            names_of(lost@).contains(worker) <==> exists|i: int|
                0 <= i < k && #[trigger] lost@[i]@ == worker by {
            if names_of(lost@).contains(worker) {
                let i = choose|i: int| 0 <= i < lost@.len() && #[trigger] lost@[i]@ == worker;
                assert(0 <= i < k && lost@[i]@ == worker);
            }
        }
    }
}

impl Scheduler {
    /// The scheduler with nothing queued, no worker, no cancellation and no
    /// lease.
    pub fn new() -> (scheduler: Self)
        ensures
            scheduler.queue@.len() == 0,
            scheduler.workers@ == Map::<Seq<char>, WorkerEntry>::empty(),
            scheduler.cancellations@ == Map::<ExternalID, ()>::empty(),
            scheduler.leases@ == Map::<ExternalID, u64>::empty(),
    {
        Scheduler {
            queue: Vec::new(),
            workers: NameMap::new(),
            cancellations: IdMap::new(),
            leases: IdMap::new(),
        }
    }

    /// The scheduler after a restart: the ready queue holds the tasks that
    /// the repository has in the state `Staged`, each once; no worker, no
    /// cancellation and no lease is known.
    pub fn recover(repository: &Repository) -> (scheduler: Self)
        ensures
            scheduler.workers@ == Map::<Seq<char>, WorkerEntry>::empty(),
            scheduler.cancellations@ == Map::<ExternalID, ()>::empty(),
            scheduler.leases@ == Map::<ExternalID, u64>::empty(),
            forall|id: ExternalID|
                scheduler.queue@.contains(id) <==> repository.tasks@.contains_key(id)
                    && repository.tasks@[id].task.status == TaskStatus::Staged,
            scheduler.queue@.no_duplicates(),
    {
        let tasks = &repository.tasks;
        let n = tasks.len();
        let mut scheduler = Scheduler::new();
        let ghost mut origin: Seq<int> = Seq::empty();
        let mut i: usize = 0;
        while i < n
            invariant
                i <= n,
                n == tasks.entries().len(),
                tasks.listed(),
                scheduler.workers@ == Map::<Seq<char>, WorkerEntry>::empty(),
                scheduler.cancellations@ == Map::<ExternalID, ()>::empty(),
                scheduler.leases@ == Map::<ExternalID, u64>::empty(),
                origin.len() == scheduler.queue@.len(),
                forall|a: int|
                    0 <= a < origin.len() ==> 0 <= (#[trigger] origin[a]) < i
                        && scheduler.queue@[a] == tasks.entries()[origin[a]].0
                        && tasks.entries()[origin[a]].1.task.status == TaskStatus::Staged,
                forall|a: int, b: int|
                    0 <= a < b < origin.len() ==> (#[trigger] origin[a]) < (#[trigger] origin[b]),
                forall|j: int|
                    0 <= j < i && (#[trigger] tasks.entries()[j]).1.task.status
                        == TaskStatus::Staged ==> exists|a: int|
                        0 <= a < origin.len() && (#[trigger] origin[a]) == j,
            decreases n - i,
        {
            if tasks.value_at(i).task.status == TaskStatus::Staged {
                let ghost before = origin;
                scheduler.queue.push(*tasks.name_at(i));
                proof {
                    origin = origin.push(i as int);
                    assert forall|j: int|
                        0 <= j < i + 1 && (#[trigger] tasks.entries()[j]).1.task.status
                            == TaskStatus::Staged implies exists|a: int|
                        0 <= a < origin.len() && (#[trigger] origin[a]) == j by {
                        if j < i {
                            let a = choose|a: int|
                                0 <= a < before.len() && (#[trigger] before[a]) == j;
                            assert(origin[a] == j);
                        } else {
                            assert(origin[origin.len() - 1] == j);
                        }
                    }
                }
            }
            i += 1;
        }
        proof {
            assert forall|id: ExternalID|
                scheduler.queue@.contains(id) <==> repository.tasks@.contains_key(id)
                    && repository.tasks@[id].task.status == TaskStatus::Staged by {
                if scheduler.queue@.contains(id) {
                    let a = choose|a: int|
                        0 <= a < scheduler.queue@.len() && scheduler.queue@[a] == id;
                    let j = origin[a];
                    assert(tasks@.contains_key(tasks.entries()[j].0@));
                    assert(tasks@[tasks.entries()[j].0@] == tasks.entries()[j].1);
                }
                if repository.tasks@.contains_key(id) && repository.tasks@[id].task.status
                    == TaskStatus::Staged {
                    let j = choose|j: int|
                        0 <= j < tasks.entries().len() && (#[trigger] tasks.entries()[j]).0@ == id;
                    assert(tasks@[tasks.entries()[j].0@] == tasks.entries()[j].1);
                    let a = choose|a: int| 0 <= a < origin.len() && (#[trigger] origin[a]) == j;
                    assert(scheduler.queue@[a] == id);
                }
            }
            assert forall|a: int, b: int|
                0 <= a < scheduler.queue@.len() && 0 <= b < scheduler.queue@.len() && a
                    != b implies scheduler.queue@[a] != scheduler.queue@[b] by {
                if a < b {
                    assert(origin[a] < origin[b]);
                } else {
                    assert(origin[b] < origin[a]);
                }
                assert(tasks.entries()[origin[a]].0@ != tasks.entries()[origin[b]].0@);
            }
        }
        scheduler
    }

    /// Whether `id` waits in the ready queue.
    pub fn is_queued(&self, id: &ExternalID) -> (queued: bool)
        ensures
            queued == self.queue@.contains(*id),
    {
        let mut i: usize = 0;
        while i < self.queue.len()
            invariant
                i <= self.queue@.len(),
                forall|j: int| 0 <= j < i ==> self.queue@[j] != *id,
            decreases self.queue@.len() - i,
        {
            if self.queue[i] == *id {
                return true;
            }
            i += 1;
        }
        false
    }

    /// Puts the staged task `id` at the end of the ready queue. A task that
    /// waits there already is not queued twice; a task in another state is
    /// refused.
    pub fn publish(&mut self, repository: &Repository, id: &ExternalID) -> (done: Result<
        (),
        ErrorKind,
    >)
        ensures
            final(self).workers == old(self).workers,
            final(self).cancellations == old(self).cancellations,
            final(self).leases == old(self).leases,
            done is Err ==> final(self).queue == old(self).queue,
            id.kind != IdKind::Task ==> done == Err::<(), ErrorKind>(ErrorKind::InvalidArgument),
            id.kind == IdKind::Task && !repository.has_task(*id) ==> done == Err::<
                (),
                ErrorKind,
            >(ErrorKind::NotFound),
            id.kind == IdKind::Task && repository.has_task(*id) && repository.task(*id).status
                != TaskStatus::Staged ==> done == Err::<(), ErrorKind>(
                ErrorKind::InvalidTaskState,
            ),
            id.kind == IdKind::Task && repository.has_task(*id) && repository.task(*id).status
                == TaskStatus::Staged ==> done is Ok
                    && final(self).queue@ == if old(self).queue@.contains(*id) {
                old(self).queue@
            } else {
                old(self).queue@.push(*id)
            },
    {
        let status = match repository.get_task(id) {
            Err(error) => {
                return Err(error);
            },
            Ok(found) => found.0.status,
        };
        if status != TaskStatus::Staged {
            return Err(ErrorKind::InvalidTaskState);
        }
        if !self.is_queued(id) {
            self.queue.push(*id);
        }
        Ok(())
    }

    /// Takes the task at the head of the ready queue for `worker`. A task
    /// whose cancellation has been asked for is reported as canceled; a task
    /// whose function or files are gone fails for good; any other task starts
    /// running under a lease of thirty seconds from `now` and is handed out
    /// staged.
    pub fn pull_task(&mut self, repository: &mut Repository, worker: &String, now: u64) -> (outcome:
        PullOutcome)
        requires
            old(repository).wf(),
        ensures
            final(repository).wf(),
            final(repository).same_but_tasks(old(repository)),
            advanced(old(repository).tasks@, final(repository).tasks@),
            final(self).cancellations == old(self).cancellations,
            old(self).queue@.len() == 0 ==> outcome is Empty && final(self).queue == old(self).queue
                && final(self).workers == old(self).workers
                && final(self).leases == old(self).leases
                && final(repository).tasks == old(repository).tasks,
            outcome matches PullOutcome::Staged(staged) ==> old(self).queue@.len() > 0
                && staged.task_id == old(self).queue@[0] && pulled(
                old(repository).tasks@,
                final(repository).tasks@,
                staged.task_id,
            ),
            old(self).queue@.len() > 0 ==> final(self).queue@ == old(self).queue@.drop_first()
                && pull_effect(
                old(self),
                old(repository),
                final(self),
                final(repository),
                old(self).queue@[0],
                worker@,
                now,
                outcome,
            ),
    {
        if self.queue.len() == 0 {
            return PullOutcome::Empty;
        }
        let id = self.queue.remove(0);
        assert(self.queue@ =~= old(self).queue@.drop_first());
        if self.cancellations.contains_key(&id) {
            return PullOutcome::Canceled(id);
        }
        let task = match repository.get_task(&id) {
            Err(error) => {
                return PullOutcome::Failed { task: id, error };
            },
            Ok(found) => found.0,
        };
        match stage(repository, &task) {
            None => {
                match repository.transact(&id, &TaskEvent::ResourceMissing) {
                    Ok(()) => PullOutcome::Failed { task: id, error: ErrorKind::NotFound },
                    Err(error) => PullOutcome::Failed { task: id, error },
                }
            },
            Some(staged) => {
                let event = TaskEvent::Pull { worker: worker.clone(), now };
                proof {
                    if applied(repository.tasks@, id, event@) is Ok {
                        lemma_transition_advances(repository.task(id), event@);
                    }
                }
                match repository.transact(&id, &event) {
                    Err(error) => PullOutcome::Failed { task: id, error },
                    Ok(()) => {
                        self.workers.insert(
                            worker.clone(),
                            WorkerEntry {
                                last_heartbeat: now,
                                status: WorkerStatus::Executing,
                                assigned_task: Some(id),
                            },
                        );
                        self.leases.insert(id, now + LEASE_SECONDS);
                        PullOutcome::Staged(staged)
                    },
                }
            },
        }
    }

    /// Applies `Cancel` in the name of the creator to the task `id`, where it
    /// is on record.
    fn cancel_for_creator(repository: &mut Repository, id: &ExternalID)
        requires
            old(repository).wf(),
        ensures
            final(repository).wf(),
            final(repository).same_but_tasks(old(repository)),
            advanced(old(repository).tasks@, final(repository).tasks@),
            if id.kind == IdKind::Task && old(repository).tasks@.contains_key(*id) {
                match applied(
                    old(repository).tasks@,
                    *id,
                    TaskEventView::Cancel { caller: old(repository).tasks@[*id].task.creator@ },
                ) {
                    Ok(canceled) => rewritten(
                        old(repository).tasks@,
                        final(repository).tasks@,
                        *id,
                        canceled,
                    ),
                    Err(_) => final(repository).tasks == old(repository).tasks,
                }
            } else {
                final(repository).tasks == old(repository).tasks
            },
    {
        match repository.get_task(id) {
            Err(_) => {},
            Ok(found) => {
                let event = TaskEvent::Cancel { caller: found.0.creator.clone() };
                let _ = repository.transact(id, &event);
            },
        }
    }

    /// Records a heartbeat of `worker` at `now` and answers it. Where the
    /// task that the worker holds is in the cancellation set, the answer is
    /// `Stop`, the worker loses the task and the task is canceled. Otherwise
    /// an executing worker has the lease of its task extended, and an idle
    /// worker is told of a new task where one is ready.
    pub fn heartbeat(
        &mut self,
        repository: &mut Repository,
        worker: &String,
        status: ExecutorStatus,
        now: u64,
    ) -> (command: ExecutorCommand)
        requires
            old(repository).wf(),
        ensures
            final(repository).wf(),
            final(repository).same_but_tasks(old(repository)),
            advanced(old(repository).tasks@, final(repository).tasks@),
            final(self).queue == old(self).queue,
            final(self).cancellations == old(self).cancellations,
            heartbeat_effect(
                old(self),
                old(repository),
                final(self),
                final(repository),
                worker@,
                status,
                now,
                command,
            ),
    {
        let assigned: Option<ExternalID> = match self.workers.get(worker) {
            Some(entry) => entry.assigned_task,
            None => None,
        };
        let stop = match assigned {
            Some(task) => self.cancellations.contains_key(&task),
            None => false,
        };
        if stop {
            let task = assigned.unwrap();
            Self::cancel_for_creator(repository, &task);
            let _ = self.leases.remove(&task);
            self.workers.insert(
                worker.clone(),
                WorkerEntry { last_heartbeat: now, status: WorkerStatus::Idle, assigned_task: None },
            );
            return ExecutorCommand::Stop;
        }
        match (status, assigned) {
            (ExecutorStatus::Executing, Some(task)) => {
                let event = TaskEvent::Heartbeat { worker: worker.clone() };
                match repository.transact(&task, &event) {
                    Err(_) => {},
                    Ok(()) => {
                        match repository.get_task(&task) {
                            Ok(found) => {
                                match found.0.lease_deadline {
                                    Some(deadline) => {
                                        self.leases.insert(task, deadline);
                                    },
                                    None => {},
                                }
                            },
                            Err(_) => {},
                        }
                    },
                }
            },
            _ => {},
        }
        let recorded = match status {
            ExecutorStatus::Idle => WorkerStatus::Idle,
            ExecutorStatus::Executing => WorkerStatus::Executing,
        };
        self.workers.insert(
            worker.clone(),
            WorkerEntry { last_heartbeat: now, status: recorded, assigned_task: assigned },
        );
        if status == ExecutorStatus::Idle && self.queue.len() > 0 {
            ExecutorCommand::NewTask
        } else {
            ExecutorCommand::NoAction
        }
    }

    /// Records that the cancellation of the task `id` has been asked for. A
    /// staged task that still waits in the ready queue is canceled at once;
    /// a running task is canceled when its worker next sends a heartbeat.
    pub fn cancel(&mut self, repository: &mut Repository, id: &ExternalID) -> (done: Result<
        (),
        ErrorKind,
    >)
        requires
            old(repository).wf(),
        ensures
            final(repository).wf(),
            final(repository).same_but_tasks(old(repository)),
            advanced(old(repository).tasks@, final(repository).tasks@),
            final(self).queue == old(self).queue,
            final(self).workers == old(self).workers,
            final(self).leases == old(self).leases,
            id.kind != IdKind::Task ==> done == Err::<(), ErrorKind>(ErrorKind::InvalidArgument),
            id.kind == IdKind::Task && !old(repository).has_task(*id) ==> done == Err::<
                (),
                ErrorKind,
            >(ErrorKind::NotFound),
            done is Err ==> final(self).cancellations == old(self).cancellations
                && final(repository).tasks == old(repository).tasks,
            id.kind == IdKind::Task && old(repository).has_task(*id) ==> done is Ok
                && cancel_effect(old(self), old(repository), final(self), final(repository), *id),
    {
        let status = match repository.get_task(id) {
            Err(error) => {
                return Err(error);
            },
            Ok(found) => found.0.status,
        };
        self.cancellations.insert(*id, ());
        if status == TaskStatus::Staged && self.is_queued(id) {
            Self::cancel_for_creator(repository, id);
        }
        Ok(())
    }

    /// Takes the result of the task `id` from `worker`. Only the worker that
    /// holds the task may report; the task finishes or fails with the
    /// outcome, the tags of a finished task are written to its output files,
    /// the lease ends and the worker is free again.
    pub fn update_task_result(
        &mut self,
        repository: &mut Repository,
        worker: &String,
        id: &ExternalID,
        outcome: TaskOutcome,
    ) -> (done: Result<(), ErrorKind>)
        requires
            old(repository).wf(),
        ensures
            final(repository).wf(),
            final(repository).users == old(repository).users,
            final(repository).functions == old(repository).functions,
            final(repository).inputs == old(repository).inputs,
            advanced(old(repository).tasks@, final(repository).tasks@),
            final(self).queue == old(self).queue,
            final(self).cancellations == old(self).cancellations,
            match applied(
                old(repository).tasks@,
                *id,
                TaskEventView::Complete { worker: worker@, outcome: outcome@ },
            ) {
                Err(error) => done == Err::<(), ErrorKind>(error)
                    && final(repository).tasks == old(repository).tasks
                    && final(repository).outputs == old(repository).outputs
                    && final(self).workers == old(self).workers
                    && final(self).leases == old(self).leases,
                Ok(finished) => done is Ok && rewritten(
                    old(repository).tasks@,
                    final(repository).tasks@,
                    *id,
                    finished,
                ) && tags_persisted(
                    old(repository).outputs@,
                    final(repository).outputs@,
                    finished.assigned_outputs,
                    tags_of(outcome@),
                ) && final(self).leases@ == old(self).leases@.remove(*id) && final(self).workers@
                    == released(old(self).workers@, worker@),
            },
    {
        let event = TaskEvent::Complete { worker: worker.clone(), outcome };
        match repository.transact(id, &event) {
            Err(error) => {
                return Err(error);
            },
            Ok(()) => {},
        }
        let ghost outputs_before = repository.outputs@;
        match repository.get_task(id) {
            Err(_) => {},
            Ok(found) => {
                match found.0.result {
                    Some(TaskOutcome::Succeeded { summary, tags }) => {
                        persist_tags(repository, &found.0.assigned_outputs, &tags);
                    },
                    _ => {},
                }
            },
        }
        proof {
            let finished = applied(old(repository).tasks@, *id, event@).unwrap();
            if !(finished.result matches Some(TaskOutcomeView::Succeeded { .. })) {
                assert(tags_of(event@->Complete_outcome) =~= Map::<Seq<char>, FileAuthTag>::empty());
            }
        }
        let _ = self.leases.remove(id);
        let entry: Option<WorkerEntry> = match self.workers.get(worker) {
            Some(entry) => Some(*entry),
            None => None,
        };
        match entry {
            Some(entry) => {
                self.workers.insert(
                    worker.clone(),
                    WorkerEntry {
                        last_heartbeat: entry.last_heartbeat,
                        status: WorkerStatus::Idle,
                        assigned_task: None,
                    },
                );
            },
            None => {},
        }
        Ok(())
    }

    /// The tasks whose lease has run out at `now`.
    fn expired_leases(&self, now: u64) -> (due: Vec<ExternalID>)
        ensures
            forall|id: ExternalID| due@.contains(id) <==> lease_expired(self.leases@, id, now),
    {
        let n = self.leases.len();
        let mut due: Vec<ExternalID> = Vec::new();
        let mut i: usize = 0;
        while i < n
            invariant
                i <= n,
                n == self.leases.entries().len(),
                self.leases.listed(),
                forall|id: ExternalID|
                    due@.contains(id) <==> exists|j: int|
                        0 <= j < i && (#[trigger] self.leases.entries()[j]).0 == id
                            && self.leases.entries()[j].1 < now,
            decreases n - i,
        {
            let ghost before = due@;
            if *self.leases.value_at(i) < now {
                due.push(*self.leases.name_at(i));
            }
            proof {
                let entry = self.leases.entries()[i as int];
                assert forall|id: ExternalID|
                    due@.contains(id) <==> exists|j: int|
                        0 <= j < i + 1 && (#[trigger] self.leases.entries()[j]).0 == id
                            && self.leases.entries()[j].1 < now by {
                    if due@.contains(id) {
                        let a = choose|a: int| 0 <= a < due@.len() && due@[a] == id;
                        if a < before.len() {
                            assert(before[a] == id);
                            assert(before.contains(id));
                            let j = choose|j: int|
                                0 <= j < i && (#[trigger] self.leases.entries()[j]).0 == id
                                    && self.leases.entries()[j].1 < now;
                            assert(0 <= j < i + 1 && self.leases.entries()[j].0 == id);
                        } else {
                            assert(0 <= i < i + 1 && self.leases.entries()[i as int].0 == id);
                        }
                    }
                    if exists|j: int|
                        0 <= j < i + 1 && (#[trigger] self.leases.entries()[j]).0 == id
                            && self.leases.entries()[j].1 < now {
                        let j = choose|j: int|
                            0 <= j < i + 1 && (#[trigger] self.leases.entries()[j]).0 == id
                                && self.leases.entries()[j].1 < now;
                        if j < i {
                            assert(before.contains(id));
                            let a = choose|a: int| 0 <= a < before.len() && before[a] == id;
                            assert(due@[a] == id);
                        } else {
                            assert(due@[due@.len() - 1] == id);
                        }
                    }
                }
            }
            i += 1;
        }
        proof {
            assert forall|id: ExternalID| due@.contains(id) <==> lease_expired(
                self.leases@,
                id,
                now,
            ) by {
                if due@.contains(id) {
                    let j = choose|j: int|
                        0 <= j < n && (#[trigger] self.leases.entries()[j]).0 == id
                            && self.leases.entries()[j].1 < now;
                    assert(self.leases@.contains_key(self.leases.entries()[j].0@));
                }
                if lease_expired(self.leases@, id, now) {
                    let j = choose|j: int|
                        0 <= j < self.leases.entries().len() && (
                        #[trigger] self.leases.entries()[j]).0@ == id;
                    assert(self.leases@[self.leases.entries()[j].0@] == self.leases.entries()[j].1);
                }
            }
        }
        due
    }

    /// Whether the registry's record `entry` is that of a worker found lost
    /// at `now`.
    fn entry_lost(&self, entry: &WorkerEntry, now: u64) -> (lost: bool)
        ensures
            lost == (entry.status != WorkerStatus::Lost && (entry.last_heartbeat + LEASE_SECONDS
                < now || (entry.assigned_task matches Some(task) && lease_expired(
                self.leases@,
                task,
                now,
            )))),
    {
        if entry.status == WorkerStatus::Lost {
            return false;
        }
        if entry.last_heartbeat < now && now - entry.last_heartbeat > LEASE_SECONDS {
            return true;
        }
        match entry.assigned_task {
            None => false,
            Some(task) => match self.leases.get(&task) {
                None => false,
                Some(deadline) => *deadline < now,
            },
        }
    }

    /// The workers found lost at `now`.
    fn lost_workers(&self, now: u64) -> (lost: Vec<String>)
        ensures
            forall|worker: Seq<char>|
                names_of(lost@).contains(worker) <==> found_lost(self, worker, now),
    {
        let n = self.workers.len();
        let mut lost: Vec<String> = Vec::new();
        let mut i: usize = 0;
        while i < n
            invariant
                i <= n,
                n == self.workers.entries().len(),
                self.workers.listed(),
                forall|worker: Seq<char>|
                    names_of(lost@).contains(worker) <==> exists|j: int|
                        0 <= j < i && (#[trigger] self.workers.entries()[j]).0@ == worker
                            && found_lost(self, worker, now),
            decreases n - i,
        {
            let ghost before = lost@;
            let name = self.workers.name_at(i);
            proof {
                assert(self.workers@.contains_key(self.workers.entries()[i as int].0@));
                assert(self.workers@[self.workers.entries()[i as int].0@]
                    == self.workers.entries()[i as int].1);
            }
            if self.entry_lost(self.workers.value_at(i), now) {
                lost.push(name.clone());
            }
            proof {
                assert forall|worker: Seq<char>|
                    names_of(lost@).contains(worker) <==> exists|j: int|
                        0 <= j < i + 1 && (#[trigger] self.workers.entries()[j]).0@ == worker
                            && found_lost(self, worker, now) by {
                    if names_of(lost@).contains(worker) {
                        let a = choose|a: int| 0 <= a < lost@.len()
                            && #[trigger] lost@[a]@ == worker;
                        if a < before.len() {
                            assert(before[a]@ == worker);
                            assert(names_of(before).contains(worker));
                            let j = choose|j: int|
                                0 <= j < i && (#[trigger] self.workers.entries()[j]).0@ == worker
                                    && found_lost(self, worker, now);
                            assert(0 <= j < i + 1 && self.workers.entries()[j].0@ == worker);
                        } else {
                            assert(0 <= i < i + 1 && self.workers.entries()[i as int].0@ == worker);
                        }
                    }
                    if exists|j: int|
                        0 <= j < i + 1 && (#[trigger] self.workers.entries()[j]).0@ == worker
                            && found_lost(self, worker, now) {
                        let j = choose|j: int|
                            0 <= j < i + 1 && (#[trigger] self.workers.entries()[j]).0@ == worker
                                && found_lost(self, worker, now);
                        if j < i {
                            assert(names_of(before).contains(worker));
                            let a = choose|a: int|
                                0 <= a < before.len() && #[trigger] before[a]@ == worker;
                            assert(lost@[a]@ == worker);
                        } else {
                            assert(lost@[lost@.len() - 1]@ == worker);
                        }
                    }
                }
            }
            i += 1;
        }
        proof {
            assert forall|worker: Seq<char>|
                names_of(lost@).contains(worker) <==> found_lost(self, worker, now) by {
                if found_lost(self, worker, now) {
                    let j = choose|j: int|
                        0 <= j < self.workers.entries().len() && (
                        #[trigger] self.workers.entries()[j]).0@ == worker;
                    assert(0 <= j < n && self.workers.entries()[j].0@ == worker);
                }
            }
        }
        lost
    }

    /// The tasks held by the workers of `lost`.
    fn held_by(&self, lost: &Vec<String>) -> (held: Vec<ExternalID>)
        ensures
            forall|id: ExternalID|
                held@.contains(id) <==> exists|i: int|
                    0 <= i < lost@.len() && self.workers@.contains_key(#[trigger] lost@[i]@)
                        && self.workers@[lost@[i]@].assigned_task == Some(id),
    {
        let mut held: Vec<ExternalID> = Vec::new();
        let mut k: usize = 0;
        while k < lost.len()
            invariant
                k <= lost@.len(),
                forall|id: ExternalID|
                    held@.contains(id) <==> exists|i: int|
                        0 <= i < k && self.workers@.contains_key(#[trigger] lost@[i]@)
                            && self.workers@[lost@[i]@].assigned_task == Some(id),
            decreases lost@.len() - k,
        {
            let ghost before = held@;
            let task: Option<ExternalID> = match self.workers.get(&lost[k]) {
                Some(entry) => entry.assigned_task,
                None => None,
            };
            match task {
                Some(id) => {
                    held.push(id);
                },
                None => {},
            }
            proof {
                assert forall|id: ExternalID|
                    held@.contains(id) <==> exists|i: int|
                        0 <= i < k + 1 && self.workers@.contains_key(#[trigger] lost@[i]@)
                            && self.workers@[lost@[i]@].assigned_task == Some(id) by {
                    if held@.contains(id) {
                        let a = choose|a: int| 0 <= a < held@.len() && held@[a] == id;
                        if a < before.len() {
                            assert(before[a] == id);
                            assert(before.contains(id));
                            let i = choose|i: int|
                                0 <= i < k && self.workers@.contains_key(#[trigger] lost@[i]@)
                                    && self.workers@[lost@[i]@].assigned_task == Some(id);
                            assert(0 <= i < k + 1 && self.workers@.contains_key(lost@[i]@));
                        } else {
                            assert(0 <= k < k + 1 && self.workers@.contains_key(lost@[k as int]@));
                        }
                    }
                    if exists|i: int|
                        0 <= i < k + 1 && self.workers@.contains_key(#[trigger] lost@[i]@)
                            && self.workers@[lost@[i]@].assigned_task == Some(id) {
                        let i = choose|i: int|
                            0 <= i < k + 1 && self.workers@.contains_key(#[trigger] lost@[i]@)
                                && self.workers@[lost@[i]@].assigned_task == Some(id);
                        if i < k {
                            assert(before.contains(id));
                            let a = choose|a: int| 0 <= a < before.len() && before[a] == id;
                            assert(held@[a] == id);
                        } else {
                            assert(held@[held@.len() - 1] == id);
                        }
                    }
                }
            }
            k += 1;
        }
        held
    }

    /// Detects failures at `now`: a task whose lease has run out fails, a
    /// worker that has been silent for more than thirty seconds or whose
    /// task's lease has run out is marked lost, and the task it held fails.
    /// Nothing is retried.
    pub fn tick(&mut self, repository: &mut Repository, now: u64)
        requires
            old(repository).wf(),
        ensures
            final(repository).wf(),
            final(repository).same_but_tasks(old(repository)),
            advanced(old(repository).tasks@, final(repository).tasks@),
            final(self).queue == old(self).queue,
            final(self).cancellations == old(self).cancellations,
            tick_effect(old(self), old(repository), final(self), final(repository), now),
    {
        let due = self.expired_leases(now);
        let lost = self.lost_workers(now);
        let held = self.held_by(&lost);
        proof {
            assert forall|id: ExternalID| held@.contains(id) <==> orphaned(self, id, now) by {
                if held@.contains(id) {
                    let i = choose|i: int|
                        0 <= i < lost@.len() && self.workers@.contains_key(#[trigger] lost@[i]@)
                            && self.workers@[lost@[i]@].assigned_task == Some(id);
                    assert(names_of(lost@).contains(lost@[i]@));
                    assert(found_lost(self, lost@[i]@, now));
                }
                if orphaned(self, id, now) {
                    let worker = choose|worker: Seq<char>| #[trigger]
                        found_lost(self, worker, now) && self.workers@[worker].assigned_task
                            == Some(id);
                    assert(names_of(lost@).contains(worker));
                    let i = choose|i: int| 0 <= i < lost@.len() && #[trigger] lost@[i]@ == worker;
                    assert(self.workers@.contains_key(lost@[i]@));
                }
            }
            assert forall|i: int| 0 <= i < lost@.len() implies self.workers@.contains_key(
                #[trigger] lost@[i]@,
            ) by {
                assert(names_of(lost@).contains(lost@[i]@));
                assert(found_lost(self, lost@[i]@, now));
            }
        }
        fail_all(repository, &due, &TaskEvent::LeaseExpired);
        let ghost middle = repository.tasks@;
        fail_all(repository, &held, &TaskEvent::WorkerLost);
        proof {
            let tasks = old(repository).tasks@;
            assert forall|id: ExternalID| #[trigger] tasks.contains_key(id) implies if lease_expired(
                self.leases@,
                id,
                now,
            ) {
                row_after(tasks, id, TaskEventView::LeaseExpired, repository.tasks@[id])
            } else if orphaned(self, id, now) {
                row_after(tasks, id, TaskEventView::WorkerLost, repository.tasks@[id])
            } else {
                repository.tasks@[id] == tasks[id]
            } by {
                assert(middle.contains_key(id));
                if due@.contains(id) {
                    assert(row_after(tasks, id, TaskEventView::LeaseExpired, middle[id]));
                    assert(applied(middle, id, TaskEventView::WorkerLost) is Err);
                }
            }
        }
        assert(repository.tasks@.dom() =~= old(repository).tasks@.dom());
        end_leases(&mut self.leases, &due);
        let ghost middle_leases = self.leases@;
        end_leases(&mut self.leases, &held);
        mark_lost(&mut self.workers, &lost);
        proof {
            assert forall|id: ExternalID|
                #![trigger self.leases@.contains_key(id)]
                #![trigger old(self).leases@.contains_key(id)]
                self.leases@.contains_key(id) <==> old(self).leases@.contains_key(id)
                    && !lease_expired(old(self).leases@, id, now) && !orphaned(
                    old(self),
                    id,
                    now,
                ) by {
                assert(middle_leases.contains_key(id) <==> old(self).leases@.contains_key(id)
                    && !due@.contains(id));
                assert(self.leases@.contains_key(id) <==> middle_leases.contains_key(id)
                    && !held@.contains(id));
                assert(due@.contains(id) <==> lease_expired(old(self).leases@, id, now));
                assert(held@.contains(id) <==> orphaned(old(self), id, now));
            }
            assert forall|id: ExternalID| #[trigger]
                self.leases@.contains_key(id) implies self.leases@[id] == old(self).leases@[id] by {
                assert(middle_leases.contains_key(id));
            }
            assert forall|worker: Seq<char>| #[trigger]
                old(self).workers@.contains_key(worker) implies self.workers@[worker]
                == if found_lost(old(self), worker, now) {
                WorkerEntry {
                    last_heartbeat: old(self).workers@[worker].last_heartbeat,
                    status: WorkerStatus::Lost,
                    assigned_task: None,
                }
            } else {
                old(self).workers@[worker]
            } by {
                assert(names_of(lost@).contains(worker) <==> found_lost(old(self), worker, now));
            }
        }
    }
}

} // verus!
