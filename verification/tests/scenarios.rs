use teaclave_lifecycle::address::Ipv4Addr;
use teaclave_lifecycle::entities::{FileCrypto, Role, SlotSpec, User};
use teaclave_lifecycle::error::ErrorKind;
use teaclave_lifecycle::files::FileAuthTag;
use teaclave_lifecycle::ids::{ExternalID, IdKind};
use teaclave_lifecycle::management::{CreateTaskRequest, FunctionSpec, Management, RequestContext};
use teaclave_lifecycle::names::NameSet;
use teaclave_lifecycle::scheduler::{ExecutorCommand, ExecutorStatus, PullOutcome, WorkerStatus};
use teaclave_lifecycle::table::NameMap;
use teaclave_lifecycle::task::{ExecutorType, FailureReason, TaskOutcome, TaskStatus};

fn context(user: &str) -> RequestContext {
    RequestContext {
        user: user.to_string(),
        ip: Ipv4Addr::new(10, 0, 0, 1),
        microsecond: 1_000,
        authorized: true,
    }
}

fn stranger(user: &str) -> RequestContext {
    RequestContext {
        user: user.to_string(),
        ip: Ipv4Addr::new(10, 0, 0, 2),
        microsecond: 2_000,
        authorized: false,
    }
}

fn function_spec() -> FunctionSpec {
    FunctionSpec {
        name: "echo".to_string(),
        description: "returns its argument".to_string(),
        executor_type: ExecutorType::Native,
        payload: vec![1, 2, 3],
        arguments: NameSet::from_vec(vec!["x".to_string()]),
        inputs: vec![],
        outputs: vec![SlotSpec { name: "out".to_string(), optional: false }],
        public: true,
        usage_quota: None,
    }
}

fn owners(users: &[&str]) -> NameSet {
    NameSet::from_vec(users.iter().map(|u| u.to_string()).collect())
}

fn request(function_id: ExternalID, output_owners: &[&str]) -> CreateTaskRequest {
    let mut function_arguments = NameMap::new();
    function_arguments.insert("x".to_string(), "1".to_string());
    let mut outputs_ownership = NameMap::new();
    outputs_ownership.insert("out".to_string(), owners(output_owners));
    CreateTaskRequest {
        function_id,
        function_arguments,
        executor: ExecutorType::Native,
        inputs_ownership: NameMap::new(),
        outputs_ownership,
    }
}

fn function_id() -> ExternalID {
    ExternalID::try_from("function-aaaaaaaa-aaaa-aaaa-aaaa-aaaaaaaaa001").unwrap()
}

/// A service with the user `u1`, one function and a task of `u1` that has
/// been invoked. Hands out the service, the task and its output file.
fn invoked() -> (Management, ExternalID, ExternalID) {
    let mut service = Management::new();
    service.repository.put_user(User { id: "u1".to_string(), role: Role::DataOwner });
    let u1 = context("u1");
    let registered = service.register_function_with(&u1, function_id(), function_spec());
    assert_eq!(registered.outcome, Ok(function_id()));
    let task = service.create_task(&u1, request(function_id(), &["u1"])).outcome.unwrap();
    let output = service
        .register_output_file(&u1, "https://store/out".to_string(), FileCrypto::Raw)
        .outcome
        .unwrap();
    let mut outputs = NameMap::new();
    outputs.insert("out".to_string(), output);
    assert_eq!(service.assign_data(&u1, &task, &NameMap::new(), &outputs).outcome, Ok(()));
    assert_eq!(service.get_task(&u1, &task).unwrap().status, TaskStatus::DataAssigned);
    assert_eq!(service.approve_task(&u1, &task).outcome, Ok(()));
    assert_eq!(service.get_task(&u1, &task).unwrap().status, TaskStatus::Approved);
    assert_eq!(service.invoke_task(&u1, &task).outcome, Ok(()));
    assert_eq!(service.get_task(&u1, &task).unwrap().status, TaskStatus::Staged);
    (service, task, output)
}

#[test]
fn happy_path_ends_finished() {
    let (mut service, task, output) = invoked();
    let worker = "worker-1".to_string();
    let command =
        service.scheduler.heartbeat(&mut service.repository, &worker, ExecutorStatus::Idle, 10);
    assert_eq!(command, ExecutorCommand::NewTask);
    let staged = match service.scheduler.pull_task(&mut service.repository, &worker, 10) {
        PullOutcome::Staged(staged) => staged,
        _ => panic!("the task was not handed out"),
    };
    assert_eq!(staged.task_id, task);
    assert_eq!(staged.function_payload, vec![1, 2, 3]);
    assert_eq!(staged.arguments.get(&"x".to_string()), Some(&"1".to_string()));
    assert_eq!(
        staged.resolved_outputs.get(&"out".to_string()).unwrap().url,
        "https://store/out".to_string()
    );
    let running = service.get_task(&context("u1"), &task).unwrap();
    assert_eq!(running.status, TaskStatus::Running);
    assert_eq!(running.lease_deadline, Some(40));
    assert_eq!(running.assigned_worker, Some(worker.clone()));

    let mut tags = NameMap::new();
    let tag = FileAuthTag { tag: [7u8; 16] };
    tags.insert("out".to_string(), tag);
    let outcome = TaskOutcome::Succeeded { summary: "ok".to_string(), tags };
    let reply = service.update_task_result(&context("worker-1"), &task, outcome);
    assert_eq!(reply.outcome, Ok(()));
    assert!(reply.audit.result());
    assert_eq!(reply.audit.message(), "update_task_result");
    let finished = service.get_task(&context("u1"), &task).unwrap();
    assert_eq!(finished.status, TaskStatus::Finished);
    assert_eq!(finished.lease_deadline, None);
    match finished.result {
        Some(TaskOutcome::Succeeded { summary, .. }) => assert_eq!(summary, "ok"),
        _ => panic!("the result is not a success"),
    }
    assert_eq!(service.repository.get_output(&output).unwrap().cmac.unwrap().tag, [7u8; 16]);
    let entry = service.scheduler.workers.get(&worker).unwrap();
    assert_eq!(entry.status, WorkerStatus::Idle);
    assert_eq!(entry.assigned_task, None);
    assert!(service.scheduler.leases.get(&task).is_none());
}

#[test]
fn cancellation_before_pull_reports_canceled() {
    let (mut service, task, _) = invoked();
    assert_eq!(service.cancel_task(&context("u1"), &task).outcome, Ok(()));
    assert_eq!(service.get_task(&context("u1"), &task).unwrap().status, TaskStatus::Canceled);
    let worker = "worker-1".to_string();
    match service.scheduler.pull_task(&mut service.repository, &worker, 10) {
        PullOutcome::Canceled(id) => assert_eq!(id, task),
        _ => panic!("the pull did not report the cancellation"),
    }
    assert_eq!(service.get_task(&context("u1"), &task).unwrap().status, TaskStatus::Canceled);
    match service.scheduler.pull_task(&mut service.repository, &worker, 11) {
        PullOutcome::Empty => {}
        _ => panic!("the queue should be empty"),
    }
}

#[test]
fn silent_worker_loses_its_lease() {
    let (mut service, task, _) = invoked();
    let worker = "worker-1".to_string();
    match service.scheduler.pull_task(&mut service.repository, &worker, 100) {
        PullOutcome::Staged(_) => {}
        _ => panic!("the task was not handed out"),
    }
    service.scheduler.tick(&mut service.repository, 130);
    assert_eq!(service.get_task(&context("u1"), &task).unwrap().status, TaskStatus::Running);
    service.scheduler.tick(&mut service.repository, 131);
    let failed = service.get_task(&context("u1"), &task).unwrap();
    assert_eq!(failed.status, TaskStatus::Failed);
    match failed.result {
        Some(TaskOutcome::Failed { reason, .. }) => assert_eq!(reason, FailureReason::LeaseExpired),
        _ => panic!("the result is not a failure"),
    }
    let entry = service.scheduler.workers.get(&worker).unwrap();
    assert_eq!(entry.status, WorkerStatus::Lost);
    assert_eq!(entry.assigned_task, None);
    assert!(service.scheduler.leases.get(&task).is_none());
    // A failed task is terminal: nothing is retried.
    match service.scheduler.pull_task(&mut service.repository, &worker, 140) {
        PullOutcome::Empty => {}
        _ => panic!("a failed task must not be handed out again"),
    }
}

#[test]
fn missing_approval_blocks_invocation() {
    let mut service = Management::new();
    let u1 = context("u1");
    let u2 = context("u2");
    assert!(service.register_function_with(&u1, function_id(), function_spec()).outcome.is_ok());
    let task = service.create_task(&u1, request(function_id(), &["u1", "u2"])).outcome.unwrap();
    let fusion = service
        .register_fusion_output(
            &u1,
            vec!["u1".to_string(), "u2".to_string()],
            "fusion://out".to_string(),
            FileCrypto::Raw,
        )
        .outcome
        .unwrap();
    let mut outputs = NameMap::new();
    outputs.insert("out".to_string(), fusion);
    assert_eq!(service.assign_data(&u1, &task, &NameMap::new(), &outputs).outcome, Ok(()));
    assert_eq!(service.approve_task(&u1, &task).outcome, Ok(()));
    assert_eq!(service.get_task(&u1, &task).unwrap().status, TaskStatus::DataAssigned);
    let refused = service.invoke_task(&u1, &task);
    assert_eq!(refused.outcome, Err(ErrorKind::InvalidTaskState));
    assert!(!refused.audit.result());
    assert_eq!(service.scheduler.queue.len(), 0);
    assert_eq!(service.approve_task(&u2, &task).outcome, Ok(()));
    assert_eq!(service.get_task(&u1, &task).unwrap().status, TaskStatus::Approved);
    assert_eq!(service.invoke_task(&u1, &task).outcome, Ok(()));
    assert_eq!(service.scheduler.queue, vec![task]);
}

#[test]
fn unauthorised_registration_changes_nothing() {
    let mut service = Management::new();
    let reply = service.register_input_file(
        &stranger("mallory"),
        "https://store/in".to_string(),
        FileAuthTag { tag: [0u8; 16] },
        FileCrypto::Raw,
    );
    assert_eq!(reply.outcome, Err(ErrorKind::PermissionDenied));
    assert!(!reply.audit.result());
    assert_eq!(reply.audit.user(), "mallory");
    assert_eq!(reply.audit.message(), "register_input_file");
    assert_eq!(reply.audit.microsecond(), 2_000);
    assert_eq!(service.repository.inputs.len(), 0);
    let accepted = service.register_input_file(
        &context("alice"),
        "https://store/in".to_string(),
        FileAuthTag { tag: [0u8; 16] },
        FileCrypto::Raw,
    );
    let id = accepted.outcome.unwrap();
    assert_eq!(id.kind, IdKind::Input);
    assert_eq!(service.repository.inputs.len(), 1);
    assert!(service.repository.get_input(&id).unwrap().owner.contains(&"alice".to_string()));
}
