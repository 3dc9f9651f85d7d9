use teaclave_lifecycle::error::{ErrorKind, Surface};
use teaclave_lifecycle::files::{FileAuthTag, FileRef};
use teaclave_lifecycle::ids::{ExternalID, IdKind};
use teaclave_lifecycle::names::NameSet;
use teaclave_lifecycle::table::NameMap;
use teaclave_lifecycle::task::{
    ExecutorType, FailureReason, Task, TaskEvent, TaskOutcome, TaskStatus,
};

fn names(users: &[&str]) -> NameSet {
    NameSet::from_vec(users.iter().map(|u| u.to_string()).collect())
}

fn id(kind: IdKind, n: u128) -> ExternalID {
    ExternalID::new(kind, n)
}

/// A task of `alice` with the input slot `in` owned by `alice` and `bob` and
/// the output slot `out` owned by `alice`.
fn task() -> Task {
    let mut arguments = NameMap::new();
    arguments.insert("x".to_string(), "1".to_string());
    let mut inputs = NameMap::new();
    inputs.insert("in".to_string(), names(&["alice", "bob"]));
    let mut outputs = NameMap::new();
    outputs.insert("out".to_string(), names(&["alice"]));
    Task::create(
        id(IdKind::Task, 1),
        "alice".to_string(),
        id(IdKind::Function, 2),
        arguments,
        ExecutorType::Python,
        inputs,
        outputs,
    )
}

fn file(n: u128, kind: IdKind, owners: &[&str]) -> FileRef {
    FileRef { id: id(kind, n), owners: names(owners) }
}

fn bind(slot: &str, file: FileRef) -> NameMap<FileRef> {
    let mut map = NameMap::new();
    map.insert(slot.to_string(), file);
    map
}

fn assign_all(task: &mut Task) {
    let event = TaskEvent::AssignData {
        caller: "alice".to_string(),
        inputs: bind("in", file(10, IdKind::Input, &["alice", "bob"])),
        outputs: bind("out", file(11, IdKind::Output, &["alice"])),
    };
    assert_eq!(task.apply(&event), Ok(()));
}

fn approve(task: &mut Task, user: &str) -> Result<(), ErrorKind> {
    task.apply(&TaskEvent::Approve { caller: user.to_string() })
}

fn staged() -> Task {
    let mut task = task();
    assign_all(&mut task);
    approve(&mut task, "alice").unwrap();
    approve(&mut task, "bob").unwrap();
    task.apply(&TaskEvent::Invoke { caller: "alice".to_string() }).unwrap();
    task
}

fn running() -> Task {
    let mut task = staged();
    task.apply(&TaskEvent::Pull { worker: "w1".to_string(), now: 1_000 }).unwrap();
    task
}

fn succeeded() -> TaskOutcome {
    TaskOutcome::Succeeded { summary: "done".to_string(), tags: NameMap::new() }
}

fn all_events() -> Vec<TaskEvent> {
    vec![
        TaskEvent::AssignData {
            caller: "alice".to_string(),
            inputs: NameMap::new(),
            outputs: NameMap::new(),
        },
        TaskEvent::Approve { caller: "alice".to_string() },
        TaskEvent::Invoke { caller: "alice".to_string() },
        TaskEvent::Pull { worker: "w1".to_string(), now: 5 },
        TaskEvent::ResourceMissing,
        TaskEvent::Heartbeat { worker: "w1".to_string() },
        TaskEvent::Complete { worker: "w1".to_string(), outcome: succeeded() },
        TaskEvent::LeaseExpired,
        TaskEvent::WorkerLost,
    ]
}

#[test]
fn created_task_has_creator_and_owners_as_participants() {
    let task = task();
    assert_eq!(task.status, TaskStatus::Created);
    assert!(task.participants.same_as(&names(&["alice", "bob"])));
    assert!(task.approved_users.is_empty());
    assert_eq!(task.assigned_inputs.len(), 0);
    assert_eq!(task.result.is_none(), true);
    assert_eq!(task.lease_deadline, None);
    assert_eq!(task.assigned_worker, None);
    assert_eq!(task.function_arguments.get(&"x".to_string()), Some(&"1".to_string()));
}

#[test]
fn partial_assignment_stays_created() {
    let mut task = task();
    let event = TaskEvent::AssignData {
        caller: "alice".to_string(),
        inputs: bind("in", file(10, IdKind::Input, &["alice", "bob", "carol"])),
        outputs: NameMap::new(),
    };
    assert_eq!(task.apply(&event), Ok(()));
    assert_eq!(task.status, TaskStatus::Created);
    assert_eq!(task.assigned_inputs.get(&"in".to_string()), Some(&id(IdKind::Input, 10)));
    let rest = TaskEvent::AssignData {
        caller: "alice".to_string(),
        inputs: NameMap::new(),
        outputs: bind("out", file(11, IdKind::Output, &["alice"])),
    };
    assert_eq!(task.apply(&rest), Ok(()));
    assert_eq!(task.status, TaskStatus::DataAssigned);
}

#[test]
fn assignment_needs_the_owners_of_the_slot() {
    let mut task = task();
    let missing_owner = TaskEvent::AssignData {
        caller: "alice".to_string(),
        inputs: bind("in", file(10, IdKind::Input, &["alice"])),
        outputs: NameMap::new(),
    };
    assert_eq!(task.apply(&missing_owner), Err(ErrorKind::PermissionDenied));
    assert_eq!(task.assigned_inputs.len(), 0);
    let unknown_slot = TaskEvent::AssignData {
        caller: "alice".to_string(),
        inputs: bind("other", file(10, IdKind::Input, &["alice", "bob"])),
        outputs: NameMap::new(),
    };
    assert_eq!(task.apply(&unknown_slot), Err(ErrorKind::InvalidArgument));
    let not_creator = TaskEvent::AssignData {
        caller: "bob".to_string(),
        inputs: bind("in", file(10, IdKind::Input, &["alice", "bob"])),
        outputs: NameMap::new(),
    };
    assert_eq!(task.apply(&not_creator), Err(ErrorKind::PermissionDenied));
    assert_eq!(task.status, TaskStatus::Created);
}

#[test]
fn approval_needs_every_participant() {
    let mut task = task();
    assert_eq!(approve(&mut task, "alice"), Err(ErrorKind::InvalidTaskState));
    assign_all(&mut task);
    assert_eq!(approve(&mut task, "mallory"), Err(ErrorKind::PermissionDenied));
    assert!(task.approved_users.is_empty());
    assert_eq!(approve(&mut task, "alice"), Ok(()));
    assert_eq!(task.status, TaskStatus::DataAssigned);
    assert!(task.approved_users.is_subset_of(&task.participants));
    assert_eq!(approve(&mut task, "alice"), Ok(()));
    assert_eq!(task.status, TaskStatus::DataAssigned);
    assert_eq!(
        task.apply(&TaskEvent::Invoke { caller: "alice".to_string() }),
        Err(ErrorKind::InvalidTaskState)
    );
    assert_eq!(approve(&mut task, "bob"), Ok(()));
    assert_eq!(task.status, TaskStatus::Approved);
    assert!(task.participants.is_subset_of(&task.approved_users));
    assert!(task.approved_users.is_subset_of(&task.participants));
}

#[test]
fn invocation_is_for_the_creator() {
    let mut task = task();
    assign_all(&mut task);
    approve(&mut task, "alice").unwrap();
    approve(&mut task, "bob").unwrap();
    assert_eq!(
        task.apply(&TaskEvent::Invoke { caller: "bob".to_string() }),
        Err(ErrorKind::PermissionDenied)
    );
    assert_eq!(task.status, TaskStatus::Approved);
    assert_eq!(task.apply(&TaskEvent::Invoke { caller: "alice".to_string() }), Ok(()));
    assert_eq!(task.status, TaskStatus::Staged);
}

#[test]
fn pull_sets_a_lease_of_thirty_seconds() {
    let mut task = staged();
    assert_eq!(
        task.apply(&TaskEvent::Pull { worker: "w1".to_string(), now: u64::MAX - 29 }),
        Err(ErrorKind::Internal)
    );
    assert_eq!(task.status, TaskStatus::Staged);
    assert_eq!(task.apply(&TaskEvent::Pull { worker: "w1".to_string(), now: 1_000 }), Ok(()));
    assert_eq!(task.status, TaskStatus::Running);
    assert_eq!(task.lease_deadline, Some(1_030));
    assert_eq!(task.assigned_worker, Some("w1".to_string()));
    assert_eq!(
        task.apply(&TaskEvent::Pull { worker: "w2".to_string(), now: 1_001 }),
        Err(ErrorKind::InvalidTaskState)
    );
    assert_eq!(task.assigned_worker, Some("w1".to_string()));
}

#[test]
fn heartbeat_extends_the_lease_by_thirty_seconds() {
    let mut task = running();
    assert_eq!(
        task.apply(&TaskEvent::Heartbeat { worker: "w2".to_string() }),
        Err(ErrorKind::PermissionDenied)
    );
    assert_eq!(task.lease_deadline, Some(1_030));
    assert_eq!(task.apply(&TaskEvent::Heartbeat { worker: "w1".to_string() }), Ok(()));
    assert_eq!(task.lease_deadline, Some(1_060));
    assert_eq!(task.status, TaskStatus::Running);
    task.lease_deadline = Some(u64::MAX - 29);
    assert_eq!(
        task.apply(&TaskEvent::Heartbeat { worker: "w1".to_string() }),
        Err(ErrorKind::Internal)
    );
    assert_eq!(task.lease_deadline, Some(u64::MAX - 29));
    task.lease_deadline = Some(u64::MAX - 30);
    assert_eq!(task.apply(&TaskEvent::Heartbeat { worker: "w1".to_string() }), Ok(()));
    assert_eq!(task.lease_deadline, Some(u64::MAX));
}

#[test]
fn completion_finishes_or_fails() {
    let mut task = running();
    assert_eq!(
        task.apply(&TaskEvent::Complete { worker: "w2".to_string(), outcome: succeeded() }),
        Err(ErrorKind::PermissionDenied)
    );
    assert_eq!(task.status, TaskStatus::Running);
    let mut tags = NameMap::new();
    tags.insert("out".to_string(), FileAuthTag { tag: [9u8; 16] });
    let outcome = TaskOutcome::Succeeded { summary: "ok".to_string(), tags };
    assert_eq!(task.apply(&TaskEvent::Complete { worker: "w1".to_string(), outcome }), Ok(()));
    assert_eq!(task.status, TaskStatus::Finished);
    assert_eq!(task.lease_deadline, None);
    match &task.result {
        Some(TaskOutcome::Succeeded { summary, tags }) => {
            assert_eq!(summary, "ok");
            assert_eq!(tags.get(&"out".to_string()).unwrap().tag, [9u8; 16]);
        }
        _ => panic!("no success on record"),
    }

    let mut task = running();
    let outcome =
        TaskOutcome::Failed { reason: FailureReason::Execution, detail: "boom".to_string() };
    assert_eq!(task.apply(&TaskEvent::Complete { worker: "w1".to_string(), outcome }), Ok(()));
    assert_eq!(task.status, TaskStatus::Failed);
    match &task.result {
        Some(TaskOutcome::Failed { reason, detail }) => {
            assert_eq!(*reason, FailureReason::Execution);
            assert_eq!(detail, "boom");
        }
        _ => panic!("no failure on record"),
    }
}

#[test]
fn timer_events_fail_a_running_task() {
    for (event, reason) in [
        (TaskEvent::LeaseExpired, FailureReason::LeaseExpired),
        (TaskEvent::WorkerLost, FailureReason::WorkerLost),
    ] {
        let mut task = running();
        assert_eq!(task.apply(&event), Ok(()));
        assert_eq!(task.status, TaskStatus::Failed);
        assert_eq!(task.lease_deadline, None);
        match &task.result {
            Some(TaskOutcome::Failed { reason: found, .. }) => assert_eq!(*found, reason),
            _ => panic!("no failure on record"),
        }
        let mut waiting = staged();
        assert_eq!(waiting.apply(&event), Err(ErrorKind::InvalidTaskState));
        assert_eq!(waiting.status, TaskStatus::Staged);
    }
    let mut task = staged();
    assert_eq!(task.apply(&TaskEvent::ResourceMissing), Ok(()));
    assert_eq!(task.status, TaskStatus::Failed);
    match &task.result {
        Some(TaskOutcome::Failed { reason, .. }) => {
            assert_eq!(*reason, FailureReason::ResourceMissing)
        }
        _ => panic!("no failure on record"),
    }
    let mut task = running();
    assert_eq!(task.apply(&TaskEvent::ResourceMissing), Err(ErrorKind::InvalidTaskState));
}

#[test]
fn cancel_is_allowed_before_the_end_and_idempotent() {
    let makers: Vec<fn() -> Task> = vec![
        task,
        || {
            let mut t = task();
            assign_all(&mut t);
            t
        },
        || {
            let mut t = task();
            assign_all(&mut t);
            approve(&mut t, "alice").unwrap();
            approve(&mut t, "bob").unwrap();
            t
        },
        staged,
        running,
    ];
    for make in makers {
        let mut task = make();
        let status = task.status;
        assert_eq!(
            task.apply(&TaskEvent::Cancel { caller: "bob".to_string() }),
            Err(ErrorKind::PermissionDenied)
        );
        assert_eq!(task.status, status);
        assert_eq!(task.apply(&TaskEvent::Cancel { caller: "alice".to_string() }), Ok(()));
        assert_eq!(task.status, TaskStatus::Canceled);
        assert_eq!(task.lease_deadline, None);
        assert_eq!(task.apply(&TaskEvent::Cancel { caller: "alice".to_string() }), Ok(()));
        assert_eq!(task.status, TaskStatus::Canceled);
        assert_eq!(task.apply(&TaskEvent::Cancel { caller: "bob".to_string() }), Ok(()));
        assert_eq!(task.status, TaskStatus::Canceled);
        assert!(task.result.is_none());
    }
}

#[test]
fn terminal_states_refuse_every_event_but_cancel() {
    let finished = || {
        let mut t = running();
        t.apply(&TaskEvent::Complete { worker: "w1".to_string(), outcome: succeeded() }).unwrap();
        t
    };
    let failed = || {
        let mut t = running();
        t.apply(&TaskEvent::LeaseExpired).unwrap();
        t
    };
    let canceled = || {
        let mut t = running();
        t.apply(&TaskEvent::Cancel { caller: "alice".to_string() }).unwrap();
        t
    };
    let makers: Vec<(&dyn Fn() -> Task, TaskStatus)> = vec![
        (&finished, TaskStatus::Finished),
        (&failed, TaskStatus::Failed),
        (&canceled, TaskStatus::Canceled),
    ];
    for (make, status) in makers {
        for event in all_events() {
            let mut task = make();
            assert!(task.is_terminal());
            assert_eq!(task.apply(&event), Err(ErrorKind::InvalidTaskState));
            assert_eq!(task.status, status);
        }
        let mut task = make();
        let had_result = task.result.is_some();
        assert_eq!(task.apply(&TaskEvent::Cancel { caller: "anyone".to_string() }), Ok(()));
        assert_eq!(task.status, status);
        assert_eq!(task.result.is_some(), had_result);
    }
}

#[test]
fn illegal_transitions_fail_with_invalid_task_state() {
    let mut task = task();
    for event in all_events().into_iter().skip(1) {
        assert_eq!(task.apply(&event), Err(ErrorKind::InvalidTaskState));
        assert_eq!(task.status, TaskStatus::Created);
    }
    let mut task = running();
    for event in all_events().into_iter().take(5) {
        assert_eq!(task.apply(&event), Err(ErrorKind::InvalidTaskState));
        assert_eq!(task.status, TaskStatus::Running);
    }
}

#[test]
fn clone_keeps_the_task() {
    let task = running();
    let copy = task.clone();
    assert_eq!(copy.id, task.id);
    assert_eq!(copy.creator, "alice");
    assert_eq!(copy.status, TaskStatus::Running);
    assert_eq!(copy.lease_deadline, Some(1_030));
    assert_eq!(copy.assigned_worker, Some("w1".to_string()));
    assert!(copy.participants.same_as(&task.participants));
    assert!(copy.approved_users.same_as(&task.approved_users));
    assert_eq!(copy.assigned_inputs.get(&"in".to_string()), Some(&id(IdKind::Input, 10)));
    assert_eq!(copy.assigned_outputs.get(&"out".to_string()), Some(&id(IdKind::Output, 11)));
    assert!(copy
        .inputs_ownership
        .get(&"in".to_string())
        .unwrap()
        .same_as(&names(&["bob", "alice"])));
}

#[test]
fn errors_surface_as_the_policy_says() {
    assert_eq!(ErrorKind::InvalidTaskState.surface(), Surface::FailedPrecondition);
    assert_eq!(ErrorKind::Stale.surface(), Surface::RetriedInternally);
    for kind in [
        ErrorKind::NotFound,
        ErrorKind::PermissionDenied,
        ErrorKind::InvalidArgument,
        ErrorKind::StorageUnavailable,
        ErrorKind::SchedulerUnavailable,
        ErrorKind::WorkerLost,
        ErrorKind::LeaseExpired,
        ErrorKind::AttestationFailed,
        ErrorKind::Internal,
    ] {
        assert_eq!(kind.surface(), Surface::Direct);
    }
}
