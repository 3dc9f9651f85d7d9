use teaclave_lifecycle::entities::{FileCrypto, Function, InputFile, OutputFile};
use teaclave_lifecycle::error::ErrorKind;
use teaclave_lifecycle::files::{FileAuthTag, FileRef};
use teaclave_lifecycle::ids::{ExternalID, IdKind};
use teaclave_lifecycle::names::NameSet;
use teaclave_lifecycle::repository::Repository;
use teaclave_lifecycle::scheduler::{
    ExecutorCommand, ExecutorStatus, PullOutcome, Scheduler, WorkerEntry, WorkerStatus,
};
use teaclave_lifecycle::staging::stage;
use teaclave_lifecycle::table::NameMap;
use teaclave_lifecycle::task::{
    ExecutorType, FailureReason, Task, TaskEvent, TaskOutcome, TaskStatus,
};

fn names(users: &[&str]) -> NameSet {
    NameSet::from_vec(users.iter().map(|u| u.to_string()).collect())
}

fn function_id() -> ExternalID {
    ExternalID::new(IdKind::Function, 7)
}

fn input_id() -> ExternalID {
    ExternalID::new(IdKind::Input, 8)
}

fn output_id() -> ExternalID {
    ExternalID::new(IdKind::Output, 9)
}

fn task_id(n: u128) -> ExternalID {
    ExternalID::new(IdKind::Task, n)
}

fn repository() -> Repository {
    let mut repository = Repository::new();
    repository
        .put_function(Function {
            id: function_id(),
            name: "f".to_string(),
            description: String::new(),
            executor_type: ExecutorType::Wasm,
            payload: vec![0xCA, 0xFE],
            arguments: names(&[]),
            inputs: vec![],
            outputs: vec![],
            owner: "alice".to_string(),
            public: false,
            usage_quota: Some(3),
        })
        .unwrap();
    repository
        .put_input(InputFile {
            id: input_id(),
            owner: names(&["alice"]),
            url: "https://files/in".to_string(),
            crypto: FileCrypto::Raw,
            cmac: FileAuthTag { tag: [1u8; 16] },
            hash: Some("sha256:in".to_string()),
        })
        .unwrap();
    repository
        .put_output(OutputFile {
            id: output_id(),
            owner: names(&["alice"]),
            url: "https://files/out".to_string(),
            crypto: FileCrypto::TeaclaveFile128 { key: [2u8; 16] },
            cmac: None,
            hash: Some("sha256:out".to_string()),
        })
        .unwrap();
    repository
}

/// Stores a staged task of `alice` under `id`.
fn add_staged(repository: &mut Repository, id: ExternalID) {
    let mut inputs = NameMap::new();
    inputs.insert("in".to_string(), names(&["alice"]));
    let mut outputs = NameMap::new();
    outputs.insert("out".to_string(), names(&["alice"]));
    let mut task = Task::create(
        id,
        "alice".to_string(),
        function_id(),
        NameMap::new(),
        ExecutorType::Wasm,
        inputs,
        outputs,
    );
    let mut in_files = NameMap::new();
    in_files.insert("in".to_string(), FileRef { id: input_id(), owners: names(&["alice"]) });
    let mut out_files = NameMap::new();
    out_files.insert("out".to_string(), FileRef { id: output_id(), owners: names(&["alice"]) });
    task.apply(&TaskEvent::AssignData {
        caller: "alice".to_string(),
        inputs: in_files,
        outputs: out_files,
    })
    .unwrap();
    task.apply(&TaskEvent::Approve { caller: "alice".to_string() }).unwrap();
    task.apply(&TaskEvent::Invoke { caller: "alice".to_string() }).unwrap();
    repository.insert_task(task).unwrap();
}

fn status(repository: &Repository, id: ExternalID) -> TaskStatus {
    repository.get_task(&id).unwrap().0.status
}

fn pulled(outcome: PullOutcome) -> ExternalID {
    match outcome {
        PullOutcome::Staged(staged) => staged.task_id,
        _ => panic!("no task was handed out"),
    }
}

#[test]
fn publish_is_idempotent_and_wants_a_staged_task() {
    let mut repository = repository();
    let mut scheduler = Scheduler::new();
    add_staged(&mut repository, task_id(1));
    assert_eq!(scheduler.publish(&repository, &task_id(1)), Ok(()));
    assert_eq!(scheduler.publish(&repository, &task_id(1)), Ok(()));
    assert_eq!(scheduler.queue, vec![task_id(1)]);
    assert!(scheduler.is_queued(&task_id(1)));
    assert_eq!(scheduler.publish(&repository, &task_id(2)), Err(ErrorKind::NotFound));
    assert_eq!(scheduler.publish(&repository, &input_id()), Err(ErrorKind::InvalidArgument));
    let created = Task::create(
        task_id(3),
        "alice".to_string(),
        function_id(),
        NameMap::new(),
        ExecutorType::Wasm,
        NameMap::new(),
        NameMap::new(),
    );
    repository.insert_task(created).unwrap();
    assert_eq!(scheduler.publish(&repository, &task_id(3)), Err(ErrorKind::InvalidTaskState));
    assert_eq!(scheduler.queue, vec![task_id(1)]);
}

#[test]
fn queue_is_first_in_first_out_and_each_task_is_pulled_once() {
    let mut repository = repository();
    let mut scheduler = Scheduler::new();
    for n in 1..=3 {
        add_staged(&mut repository, task_id(n));
        scheduler.publish(&repository, &task_id(n)).unwrap();
    }
    let w1 = "w1".to_string();
    let w2 = "w2".to_string();
    assert_eq!(pulled(scheduler.pull_task(&mut repository, &w1, 10)), task_id(1));
    assert_eq!(pulled(scheduler.pull_task(&mut repository, &w2, 11)), task_id(2));
    // A task that runs cannot be published again.
    assert_eq!(scheduler.publish(&repository, &task_id(1)), Err(ErrorKind::InvalidTaskState));
    assert_eq!(pulled(scheduler.pull_task(&mut repository, &w1, 12)), task_id(3));
    assert!(matches!(scheduler.pull_task(&mut repository, &w2, 13), PullOutcome::Empty));
    for n in 1..=3 {
        assert_eq!(status(&repository, task_id(n)), TaskStatus::Running);
    }
    assert_eq!(scheduler.leases.get(&task_id(2)), Some(&41));
    let entry = scheduler.workers.get(&w2).unwrap();
    assert_eq!(entry.assigned_task, Some(task_id(2)));
    assert_eq!(entry.status, WorkerStatus::Executing);
    assert_eq!(entry.last_heartbeat, 11);
}

#[test]
fn staging_resolves_the_files() {
    let mut repository = repository();
    add_staged(&mut repository, task_id(1));
    let task = repository.get_task(&task_id(1)).unwrap().0;
    let staged = stage(&repository, &task).unwrap();
    assert_eq!(staged.task_id, task_id(1));
    assert_eq!(staged.function_payload, vec![0xCA, 0xFE]);
    assert_eq!(staged.executor, ExecutorType::Wasm);
    let input = staged.resolved_inputs.get(&"in".to_string()).unwrap();
    assert_eq!(input.url, "https://files/in");
    assert_eq!(input.cmac.unwrap().tag, [1u8; 16]);
    let output = staged.resolved_outputs.get(&"out".to_string()).unwrap();
    assert_eq!(output.url, "https://files/out");
    assert!(output.cmac.is_none());
    assert!(matches!(output.crypto, FileCrypto::TeaclaveFile128 { key } if key == [2u8; 16]));
    assert_eq!(staged.resolved_inputs.len(), 1);
    assert_eq!(staged.resolved_outputs.len(), 1);
}

#[test]
fn pull_fails_a_task_whose_file_is_gone() {
    let mut repository = repository();
    let mut scheduler = Scheduler::new();
    add_staged(&mut repository, task_id(1));
    scheduler.publish(&repository, &task_id(1)).unwrap();
    let _ = repository.inputs.remove(&input_id());
    match scheduler.pull_task(&mut repository, &"w1".to_string(), 10) {
        PullOutcome::Failed { task, error } => {
            assert_eq!(task, task_id(1));
            assert_eq!(error, ErrorKind::NotFound);
        }
        _ => panic!("the pull should have failed"),
    }
    let failed = repository.get_task(&task_id(1)).unwrap().0;
    assert_eq!(failed.status, TaskStatus::Failed);
    assert!(matches!(
        failed.result,
        Some(TaskOutcome::Failed { reason: FailureReason::ResourceMissing, .. })
    ));
    assert!(scheduler.workers.get(&"w1".to_string()).is_none());
    assert_eq!(scheduler.queue.len(), 0);
}

#[test]
fn pull_reports_a_task_that_is_not_on_record() {
    let mut repository = repository();
    let mut scheduler = Scheduler::new();
    scheduler.queue.push(task_id(9));
    match scheduler.pull_task(&mut repository, &"w1".to_string(), 10) {
        PullOutcome::Failed { task, error } => {
            assert_eq!(task, task_id(9));
            assert_eq!(error, ErrorKind::NotFound);
        }
        _ => panic!("the pull should have failed"),
    }
}

#[test]
fn heartbeat_answers_idle_and_executing_workers() {
    let mut repository = repository();
    let mut scheduler = Scheduler::new();
    let w1 = "w1".to_string();
    assert_eq!(
        scheduler.heartbeat(&mut repository, &w1, ExecutorStatus::Idle, 5),
        ExecutorCommand::NoAction
    );
    assert_eq!(scheduler.workers.get(&w1).unwrap().last_heartbeat, 5);
    add_staged(&mut repository, task_id(1));
    scheduler.publish(&repository, &task_id(1)).unwrap();
    assert_eq!(
        scheduler.heartbeat(&mut repository, &w1, ExecutorStatus::Executing, 6),
        ExecutorCommand::NoAction
    );
    assert_eq!(scheduler.workers.get(&w1).unwrap().status, WorkerStatus::Executing);
    assert_eq!(
        scheduler.heartbeat(&mut repository, &w1, ExecutorStatus::Idle, 7),
        ExecutorCommand::NewTask
    );
    assert_eq!(pulled(scheduler.pull_task(&mut repository, &w1, 8)), task_id(1));
    assert_eq!(scheduler.leases.get(&task_id(1)), Some(&38));
    assert_eq!(
        scheduler.heartbeat(&mut repository, &w1, ExecutorStatus::Executing, 20),
        ExecutorCommand::NoAction
    );
    assert_eq!(scheduler.leases.get(&task_id(1)), Some(&68));
    assert_eq!(repository.get_task(&task_id(1)).unwrap().0.lease_deadline, Some(68));
    let entry = scheduler.workers.get(&w1).unwrap();
    assert_eq!(entry.last_heartbeat, 20);
    assert_eq!(entry.assigned_task, Some(task_id(1)));
    // An idle report does not extend the lease.
    assert_eq!(
        scheduler.heartbeat(&mut repository, &w1, ExecutorStatus::Idle, 21),
        ExecutorCommand::NoAction
    );
    assert_eq!(scheduler.leases.get(&task_id(1)), Some(&68));
}

#[test]
fn cancel_of_a_running_task_waits_for_the_heartbeat() {
    let mut repository = repository();
    let mut scheduler = Scheduler::new();
    let w1 = "w1".to_string();
    add_staged(&mut repository, task_id(1));
    scheduler.publish(&repository, &task_id(1)).unwrap();
    assert_eq!(pulled(scheduler.pull_task(&mut repository, &w1, 8)), task_id(1));
    assert_eq!(scheduler.cancel(&mut repository, &task_id(1)), Ok(()));
    assert_eq!(status(&repository, task_id(1)), TaskStatus::Running);
    assert!(scheduler.cancellations.contains_key(&task_id(1)));
    // A completion that comes first wins; here the heartbeat comes first.
    assert_eq!(
        scheduler.heartbeat(&mut repository, &w1, ExecutorStatus::Executing, 9),
        ExecutorCommand::Stop
    );
    assert_eq!(status(&repository, task_id(1)), TaskStatus::Canceled);
    let entry = scheduler.workers.get(&w1).unwrap();
    assert_eq!(entry.assigned_task, None);
    assert_eq!(entry.status, WorkerStatus::Idle);
    assert!(scheduler.leases.get(&task_id(1)).is_none());
    // The worker's late result is dropped.
    let late = TaskOutcome::Succeeded { summary: "late".to_string(), tags: NameMap::new() };
    assert_eq!(
        scheduler.update_task_result(&mut repository, &w1, &task_id(1), late),
        Err(ErrorKind::InvalidTaskState)
    );
    assert_eq!(status(&repository, task_id(1)), TaskStatus::Canceled);
    assert!(repository.get_output(&output_id()).unwrap().cmac.is_none());
}

#[test]
fn completion_that_comes_first_wins_over_cancel() {
    let mut repository = repository();
    let mut scheduler = Scheduler::new();
    let w1 = "w1".to_string();
    add_staged(&mut repository, task_id(1));
    scheduler.publish(&repository, &task_id(1)).unwrap();
    assert_eq!(pulled(scheduler.pull_task(&mut repository, &w1, 8)), task_id(1));
    let mut tags = NameMap::new();
    tags.insert("out".to_string(), FileAuthTag { tag: [5u8; 16] });
    tags.insert("unbound".to_string(), FileAuthTag { tag: [6u8; 16] });
    let outcome = TaskOutcome::Succeeded { summary: "ok".to_string(), tags };
    assert_eq!(
        scheduler.update_task_result(&mut repository, &"w2".to_string(), &task_id(1), {
            TaskOutcome::Succeeded { summary: "forged".to_string(), tags: NameMap::new() }
        }),
        Err(ErrorKind::PermissionDenied)
    );
    assert_eq!(scheduler.update_task_result(&mut repository, &w1, &task_id(1), outcome), Ok(()));
    assert_eq!(status(&repository, task_id(1)), TaskStatus::Finished);
    assert_eq!(repository.get_output(&output_id()).unwrap().cmac.unwrap().tag, [5u8; 16]);
    assert_eq!(repository.get_output(&output_id()).unwrap().url, "https://files/out");
    assert_eq!(
        repository.get_output(&output_id()).unwrap().hash,
        Some("sha256:out".to_string())
    );
    assert_eq!(scheduler.cancel(&mut repository, &task_id(1)), Ok(()));
    assert_eq!(status(&repository, task_id(1)), TaskStatus::Finished);
    assert_eq!(
        scheduler.update_task_result(&mut repository, &w1, &task_id(404), {
            TaskOutcome::Succeeded { summary: String::new(), tags: NameMap::new() }
        }),
        Err(ErrorKind::NotFound)
    );
}

#[test]
fn cancel_of_a_waiting_task_is_immediate() {
    let mut repository = repository();
    let mut scheduler = Scheduler::new();
    add_staged(&mut repository, task_id(1));
    add_staged(&mut repository, task_id(2));
    scheduler.publish(&repository, &task_id(1)).unwrap();
    // Task 2 is staged but was never published.
    assert_eq!(scheduler.cancel(&mut repository, &task_id(1)), Ok(()));
    assert_eq!(scheduler.cancel(&mut repository, &task_id(2)), Ok(()));
    assert_eq!(status(&repository, task_id(1)), TaskStatus::Canceled);
    assert_eq!(status(&repository, task_id(2)), TaskStatus::Staged);
    assert_eq!(scheduler.cancel(&mut repository, &task_id(3)), Err(ErrorKind::NotFound));
    assert_eq!(scheduler.cancel(&mut repository, &output_id()), Err(ErrorKind::InvalidArgument));
    assert!(!scheduler.cancellations.contains_key(&task_id(3)));
    assert!(matches!(
        scheduler.pull_task(&mut repository, &"w".to_string(), 1),
        PullOutcome::Canceled(id) if id == task_id(1)
    ));
}

#[test]
fn tick_fails_what_is_overdue_and_nothing_else() {
    let mut repository = repository();
    let mut scheduler = Scheduler::new();
    for n in 1..=3 {
        add_staged(&mut repository, task_id(n));
        scheduler.publish(&repository, &task_id(n)).unwrap();
    }
    let (w1, w2, w3) = ("w1".to_string(), "w2".to_string(), "w3".to_string());
    assert_eq!(pulled(scheduler.pull_task(&mut repository, &w1, 100)), task_id(1));
    assert_eq!(pulled(scheduler.pull_task(&mut repository, &w2, 100)), task_id(2));
    assert_eq!(pulled(scheduler.pull_task(&mut repository, &w3, 120)), task_id(3));
    // Worker 2 keeps its lease alive but then falls silent; its lease runs to 160.
    scheduler.heartbeat(&mut repository, &w2, ExecutorStatus::Executing, 110);
    scheduler.heartbeat(&mut repository, &w2, ExecutorStatus::Executing, 115);
    assert_eq!(scheduler.leases.get(&task_id(2)), Some(&190));
    scheduler.tick(&mut repository, 130);
    for n in 1..=3 {
        assert_eq!(status(&repository, task_id(n)), TaskStatus::Running);
    }
    scheduler.tick(&mut repository, 131);
    assert_eq!(status(&repository, task_id(1)), TaskStatus::Failed);
    assert_eq!(status(&repository, task_id(2)), TaskStatus::Running);
    assert_eq!(status(&repository, task_id(3)), TaskStatus::Running);
    assert_eq!(scheduler.workers.get(&w1).unwrap().status, WorkerStatus::Lost);
    assert_eq!(scheduler.workers.get(&w2).unwrap().status, WorkerStatus::Executing);
    // At 146 worker 2 has been silent for more than thirty seconds, with its lease still good.
    scheduler.tick(&mut repository, 146);
    let lost = repository.get_task(&task_id(2)).unwrap().0;
    assert_eq!(lost.status, TaskStatus::Failed);
    assert!(matches!(
        lost.result,
        Some(TaskOutcome::Failed { reason: FailureReason::WorkerLost, .. })
    ));
    assert_eq!(
        *scheduler.workers.get(&w2).unwrap(),
        WorkerEntry { last_heartbeat: 115, status: WorkerStatus::Lost, assigned_task: None }
    );
    assert!(scheduler.leases.get(&task_id(2)).is_none());
    assert_eq!(status(&repository, task_id(3)), TaskStatus::Running);
    assert_eq!(scheduler.leases.get(&task_id(3)), Some(&150));
    scheduler.tick(&mut repository, 151);
    let expired = repository.get_task(&task_id(3)).unwrap().0;
    assert_eq!(expired.status, TaskStatus::Failed);
    assert!(matches!(
        expired.result,
        Some(TaskOutcome::Failed { reason: FailureReason::LeaseExpired, .. })
    ));
    assert_eq!(scheduler.leases.len(), 0);
}

#[test]
fn restart_queues_the_staged_tasks() {
    let mut repository = repository();
    let mut scheduler = Scheduler::new();
    for n in 1..=4 {
        add_staged(&mut repository, task_id(n));
        scheduler.publish(&repository, &task_id(n)).unwrap();
    }
    assert_eq!(pulled(scheduler.pull_task(&mut repository, &"w1".to_string(), 1)), task_id(1));
    scheduler.cancel(&mut repository, &task_id(2)).unwrap();
    let created = Task::create(
        task_id(5),
        "alice".to_string(),
        function_id(),
        NameMap::new(),
        ExecutorType::Wasm,
        NameMap::new(),
        NameMap::new(),
    );
    repository.insert_task(created).unwrap();
    let recovered = Scheduler::recover(&repository);
    let mut queued = recovered.queue.clone();
    queued.sort_by_key(|id| id.uuid);
    assert_eq!(queued, vec![task_id(3), task_id(4)]);
    assert_eq!(recovered.workers.len(), 0);
    assert_eq!(recovered.leases.len(), 0);
    assert_eq!(recovered.cancellations.len(), 0);
    assert_eq!(Scheduler::recover(&Repository::new()).queue.len(), 0);
    assert_eq!(teaclave_lifecycle::scheduler::TICK_SECONDS, 1);
}
