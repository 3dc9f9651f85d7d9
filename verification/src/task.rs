//! The task and its state machine: which event is legal in which state, who
//! may raise it, and what it changes.

use crate::error::ErrorKind;
use crate::files::{FileAuthTag, FileRef, FileRefView};
use crate::ids::ExternalID;
use crate::names::NameSet;
use crate::table::NameMap;
use vstd::prelude::*;

verus! {

/// Seconds that a lease lasts, and by which a heartbeat extends it.
pub const LEASE_SECONDS: u64 = 30;

/// The states of a task.
#[derive(Clone, Copy, Debug, PartialEq, Eq, Structural)]
pub enum TaskStatus {
    Created,
    DataAssigned,
    Approved,
    Staged,
    Running,
    Finished,
    Failed,
    Canceled,
}

/// The runtime that executes a task's function.
#[derive(Clone, Copy, Debug, PartialEq, Eq, Structural)]
pub enum ExecutorType {
    Native,
    Python,
    Wasm,
}

/// Why a task failed.
#[derive(Clone, Copy, Debug, PartialEq, Eq, Structural)]
pub enum FailureReason {
    /// The executor reported an error.
    Execution,
    /// The lease ran out.
    LeaseExpired,
    /// The worker was lost.
    WorkerLost,
    /// A file of the task was gone when the task was pulled.
    ResourceMissing,
}

/// What the execution of a task came to.
pub enum TaskOutcome {
    /// The function returned; `tags` holds the authentication tag of each
    /// output file that it wrote, by slot.
    Succeeded { summary: String, tags: NameMap<FileAuthTag> },
    /// The task failed.
    Failed { reason: FailureReason, detail: String },
}

/// The model of a `TaskOutcome`.
pub enum TaskOutcomeView {
    Succeeded { summary: Seq<char>, tags: Map<Seq<char>, FileAuthTag> },
    Failed { reason: FailureReason, detail: Seq<char> },
}

impl View for TaskOutcome {
    type V = TaskOutcomeView;

    open spec fn view(&self) -> TaskOutcomeView {
        match *self {
            TaskOutcome::Succeeded { summary, tags } => TaskOutcomeView::Succeeded {
                summary: summary@,
                tags: tags@,
            },
            TaskOutcome::Failed { reason, detail } => TaskOutcomeView::Failed {
                reason,
                detail: detail@,
            },
        }
    }
}

/// The central entity: a function to run, the data bound to its slots, the
/// users who must approve, and where the task stands.
pub struct Task {
    pub id: ExternalID,
    pub creator: String,
    pub function_id: ExternalID,
    pub function_arguments: NameMap<String>,
    pub executor: ExecutorType,
    pub inputs_ownership: NameMap<NameSet>,
    pub outputs_ownership: NameMap<NameSet>,
    pub assigned_inputs: NameMap<ExternalID>,
    pub assigned_outputs: NameMap<ExternalID>,
    pub approved_users: NameSet,
    pub participants: NameSet,
    pub status: TaskStatus,
    pub result: Option<TaskOutcome>,
    pub lease_deadline: Option<u64>,
    pub assigned_worker: Option<String>,
}

/// The model of a `Task`.
pub struct TaskView {
    pub id: ExternalID,
    pub creator: Seq<char>,
    pub function_id: ExternalID,
    pub function_arguments: Map<Seq<char>, Seq<char>>,
    pub executor: ExecutorType,
    pub inputs_ownership: Map<Seq<char>, Set<Seq<char>>>,
    pub outputs_ownership: Map<Seq<char>, Set<Seq<char>>>,
    pub assigned_inputs: Map<Seq<char>, ExternalID>,
    pub assigned_outputs: Map<Seq<char>, ExternalID>,
    pub approved_users: Set<Seq<char>>,
    pub participants: Set<Seq<char>>,
    pub status: TaskStatus,
    pub result: Option<TaskOutcomeView>,
    pub lease_deadline: Option<u64>,
    pub assigned_worker: Option<Seq<char>>,
}

/// The owner sets of an ownership map.
pub open spec fn ownership_view(map: Map<Seq<char>, NameSet>) -> Map<Seq<char>, Set<Seq<char>>> {
    map.map_values(|owners: NameSet| owners@)
}

/// The texts of a map of strings.
pub open spec fn texts_view(map: Map<Seq<char>, String>) -> Map<Seq<char>, Seq<char>> {
    map.map_values(|text: String| text@)
}

/// The models of a map of file references.
pub open spec fn files_view(map: Map<Seq<char>, FileRef>) -> Map<Seq<char>, FileRefView> {
    map.map_values(|file: FileRef| file@)
}

/// The model of an optional outcome.
pub open spec fn outcome_view(outcome: Option<TaskOutcome>) -> Option<TaskOutcomeView> {
    match outcome {
        Some(o) => Some(o@),
        None => None,
    }
}

/// The text of an optional string.
pub open spec fn text_view(text: Option<String>) -> Option<Seq<char>> {
    match text {
        Some(t) => Some(t@),
        None => None,
    }
}

impl View for Task {
    type V = TaskView;

    open spec fn view(&self) -> TaskView {
        TaskView {
            id: self.id,
            creator: self.creator@,
            function_id: self.function_id,
            function_arguments: texts_view(self.function_arguments@),
            executor: self.executor,
            inputs_ownership: ownership_view(self.inputs_ownership@),
            outputs_ownership: ownership_view(self.outputs_ownership@),
            assigned_inputs: self.assigned_inputs@,
            assigned_outputs: self.assigned_outputs@,
            approved_users: self.approved_users@,
            participants: self.participants@,
            status: self.status,
            result: outcome_view(self.result),
            lease_deadline: self.lease_deadline,
            assigned_worker: text_view(self.assigned_worker),
        }
    }
}

/// What can happen to a task once it exists.
pub enum TaskEvent {
    /// The creator binds files to input and output slots.
    AssignData { caller: String, inputs: NameMap<FileRef>, outputs: NameMap<FileRef> },
    /// A participant approves the task.
    Approve { caller: String },
    /// The creator asks for the task to be run.
    Invoke { caller: String },
    /// The scheduler hands the task to `worker` at the instant `now`.
    Pull { worker: String, now: u64 },
    /// The scheduler found a file of the task gone when it staged it.
    ResourceMissing,
    /// The worker reports that it is executing the task.
    Heartbeat { worker: String },
    /// The worker reports what the execution came to.
    Complete { worker: String, outcome: TaskOutcome },
    /// The creator cancels the task.
    Cancel { caller: String },
    /// The timer found the lease run out.
    LeaseExpired,
    /// The timer found the worker silent for too long.
    WorkerLost,
}

/// The model of a `TaskEvent`.
pub enum TaskEventView {
    AssignData {
        caller: Seq<char>,
        inputs: Map<Seq<char>, FileRefView>,
        outputs: Map<Seq<char>, FileRefView>,
    },
    Approve { caller: Seq<char> },
    Invoke { caller: Seq<char> },
    Pull { worker: Seq<char>, now: u64 },
    ResourceMissing,
    Heartbeat { worker: Seq<char> },
    Complete { worker: Seq<char>, outcome: TaskOutcomeView },
    Cancel { caller: Seq<char> },
    LeaseExpired,
    WorkerLost,
}

impl View for TaskEvent {
    type V = TaskEventView;

    open spec fn view(&self) -> TaskEventView {
        match *self {
            TaskEvent::AssignData { caller, inputs, outputs } => TaskEventView::AssignData {
                caller: caller@,
                inputs: files_view(inputs@),
                outputs: files_view(outputs@),
            },
            TaskEvent::Approve { caller } => TaskEventView::Approve { caller: caller@ },
            TaskEvent::Invoke { caller } => TaskEventView::Invoke { caller: caller@ },
            TaskEvent::Pull { worker, now } => TaskEventView::Pull { worker: worker@, now },
            TaskEvent::ResourceMissing => TaskEventView::ResourceMissing,
            TaskEvent::Heartbeat { worker } => TaskEventView::Heartbeat { worker: worker@ },
            TaskEvent::Complete { worker, outcome } => TaskEventView::Complete {
                worker: worker@,
                outcome: outcome@,
            },
            TaskEvent::Cancel { caller } => TaskEventView::Cancel { caller: caller@ },
            TaskEvent::LeaseExpired => TaskEventView::LeaseExpired,
            TaskEvent::WorkerLost => TaskEventView::WorkerLost,
        }
    }
}

/// The states that a task never leaves.
pub open spec fn is_terminal(status: TaskStatus) -> bool {
    status == TaskStatus::Finished || status == TaskStatus::Failed || status
        == TaskStatus::Canceled
}

/// How far a task has come. No event takes a task to a lower rank.
pub open spec fn rank(status: TaskStatus) -> int {
    match status {
        TaskStatus::Created => 0,
        TaskStatus::DataAssigned => 1,
        TaskStatus::Approved => 2,
        TaskStatus::Staged => 3,
        TaskStatus::Running => 4,
        TaskStatus::Finished => 5,
        TaskStatus::Failed => 5,
        TaskStatus::Canceled => 5,
    }
}

/// The users named in some owner set of `ownership`.
pub open spec fn owners_of(ownership: Map<Seq<char>, Set<Seq<char>>>) -> Set<Seq<char>> {
    Set::new(
        |user: Seq<char>|
            exists|slot: Seq<char>|
                ownership.contains_key(slot) && (#[trigger] ownership[slot]).contains(user),
    )
}

/// Every slot of `ownership` has a file bound to it.
pub open spec fn slots_filled(
    ownership: Map<Seq<char>, Set<Seq<char>>>,
    assigned: Map<Seq<char>, ExternalID>,
) -> bool {
    ownership.dom().subset_of(assigned.dom())
}

/// Every binding names a slot of `ownership`.
pub open spec fn slots_known(
    ownership: Map<Seq<char>, Set<Seq<char>>>,
    files: Map<Seq<char>, FileRefView>,
) -> bool {
    files.dom().subset_of(ownership.dom())
}

/// Every bound file is owned by at least the users that the task names for
/// its slot.
pub open spec fn owners_covered(
    ownership: Map<Seq<char>, Set<Seq<char>>>,
    files: Map<Seq<char>, FileRefView>,
) -> bool {
    forall|slot: Seq<char>| #[trigger]
        files.contains_key(slot) && ownership.contains_key(slot) ==> ownership[slot].subset_of(
            files[slot].owners,
        )
}

/// The identifiers of the bound files.
pub open spec fn file_ids(files: Map<Seq<char>, FileRefView>) -> Map<Seq<char>, ExternalID> {
    files.map_values(|file: FileRefView| file.id)
}

/// The task as `create` leaves it.
pub open spec fn created(
    id: ExternalID,
    creator: Seq<char>,
    function_id: ExternalID,
    function_arguments: Map<Seq<char>, Seq<char>>,
    executor: ExecutorType,
    inputs_ownership: Map<Seq<char>, Set<Seq<char>>>,
    outputs_ownership: Map<Seq<char>, Set<Seq<char>>>,
) -> TaskView {
    TaskView {
        id,
        creator,
        function_id,
        function_arguments,
        executor,
        inputs_ownership,
        outputs_ownership,
        assigned_inputs: Map::empty(),
        assigned_outputs: Map::empty(),
        approved_users: Set::empty(),
        participants: owners_of(inputs_ownership).union(owners_of(outputs_ownership)).insert(
            creator,
        ),
        status: TaskStatus::Created,
        result: None,
        lease_deadline: None,
        assigned_worker: None,
    }
}

/// The task as it leaves the state `Running` or `Staged` for `Failed`.
pub open spec fn failed(task: TaskView, reason: FailureReason) -> TaskView {
    TaskView {
        status: TaskStatus::Failed,
        result: Some(TaskOutcomeView::Failed { reason, detail: Seq::empty() }),
        lease_deadline: None,
        ..task
    }
}

/// The state machine: the task after `event`, or the error that `event`
/// fails with. The state is tested first, then the caller, then the data.
pub open spec fn transition(task: TaskView, event: TaskEventView) -> Result<TaskView, ErrorKind> {
    match event {
        TaskEventView::AssignData { caller, inputs, outputs } => {
            if task.status != TaskStatus::Created {
                Err(ErrorKind::InvalidTaskState)
            } else if caller != task.creator {
                Err(ErrorKind::PermissionDenied)
            } else if !slots_known(task.inputs_ownership, inputs) || !slots_known(
                task.outputs_ownership,
                outputs,
            ) {
                Err(ErrorKind::InvalidArgument)
            } else if !owners_covered(task.inputs_ownership, inputs) || !owners_covered(
                task.outputs_ownership,
                outputs,
            ) {
                Err(ErrorKind::PermissionDenied)
            } else {
                let assigned_inputs = task.assigned_inputs.union_prefer_right(file_ids(inputs));
                let assigned_outputs = task.assigned_outputs.union_prefer_right(
                    file_ids(outputs),
                );
                Ok(
                    TaskView {
                        assigned_inputs,
                        assigned_outputs,
                        status: if slots_filled(task.inputs_ownership, assigned_inputs)
                            && slots_filled(task.outputs_ownership, assigned_outputs) {
                            TaskStatus::DataAssigned
                        } else {
                            TaskStatus::Created
                        },
                        ..task
                    },
                )
            }
        },
        TaskEventView::Approve { caller } => {
            if task.status != TaskStatus::DataAssigned {
                Err(ErrorKind::InvalidTaskState)
            } else if !task.participants.contains(caller) {
                Err(ErrorKind::PermissionDenied)
            } else {
                let approved_users = task.approved_users.insert(caller);
                Ok(
                    TaskView {
                        approved_users,
                        status: if task.participants.subset_of(approved_users) {
                            TaskStatus::Approved
                        } else {
                            TaskStatus::DataAssigned
                        },
                        ..task
                    },
                )
            }
        },
        TaskEventView::Invoke { caller } => {
            if task.status != TaskStatus::Approved {
                Err(ErrorKind::InvalidTaskState)
            } else if caller != task.creator {
                Err(ErrorKind::PermissionDenied)
            } else {
                Ok(TaskView { status: TaskStatus::Staged, ..task })
            }
        },
        TaskEventView::Pull { worker, now } => {
            if task.status != TaskStatus::Staged {
                Err(ErrorKind::InvalidTaskState)
            } else if now + LEASE_SECONDS > u64::MAX {
                Err(ErrorKind::Internal)
            } else {
                Ok(
                    TaskView {
                        status: TaskStatus::Running,
                        assigned_worker: Some(worker),
                        lease_deadline: Some((now + LEASE_SECONDS) as u64),
                        ..task
                    },
                )
            }
        },
        TaskEventView::ResourceMissing => {
            if task.status != TaskStatus::Staged {
                Err(ErrorKind::InvalidTaskState)
            } else {
                Ok(failed(task, FailureReason::ResourceMissing))
            }
        },
        TaskEventView::Heartbeat { worker } => {
            if task.status != TaskStatus::Running {
                Err(ErrorKind::InvalidTaskState)
            } else if task.assigned_worker != Some(worker) {
                Err(ErrorKind::PermissionDenied)
            } else if task.lease_deadline is None || task.lease_deadline.unwrap() + LEASE_SECONDS
                > u64::MAX {
                Err(ErrorKind::Internal)
            } else {
                Ok(
                    TaskView {
                        lease_deadline: Some(
                            (task.lease_deadline.unwrap() + LEASE_SECONDS) as u64,
                        ),
                        ..task
                    },
                )
            }
        },
        TaskEventView::Complete { worker, outcome } => {
            if task.status != TaskStatus::Running {
                Err(ErrorKind::InvalidTaskState)
            } else if task.assigned_worker != Some(worker) {
                Err(ErrorKind::PermissionDenied)
            } else {
                Ok(
                    TaskView {
                        status: if outcome is Succeeded {
                            TaskStatus::Finished
                        } else {
                            TaskStatus::Failed
                        },
                        result: Some(outcome),
                        lease_deadline: None,
                        ..task
                    },
                )
            }
        },
        TaskEventView::Cancel { caller } => {
            if is_terminal(task.status) {
                Ok(task)
            } else if caller != task.creator {
                Err(ErrorKind::PermissionDenied)
            } else {
                Ok(TaskView { status: TaskStatus::Canceled, lease_deadline: None, ..task })
            }
        },
        TaskEventView::LeaseExpired => {
            if task.status != TaskStatus::Running {
                Err(ErrorKind::InvalidTaskState)
            } else {
                Ok(failed(task, FailureReason::LeaseExpired))
            }
        },
        TaskEventView::WorkerLost => {
            if task.status != TaskStatus::Running {
                Err(ErrorKind::InvalidTaskState)
            } else {
                Ok(failed(task, FailureReason::WorkerLost))
            }
        },
    }
}

/// What holds of every task: the approvals come from participants, the
/// creator and the owners are participants, files are bound to known slots
/// only, and each state has what it stands for.
pub open spec fn task_inv(task: TaskView) -> bool {
    &&& task.participants.contains(task.creator)
    &&& owners_of(task.inputs_ownership).subset_of(task.participants)
    &&& owners_of(task.outputs_ownership).subset_of(task.participants)
    &&& task.approved_users.subset_of(task.participants)
    &&& task.assigned_inputs.dom().subset_of(task.inputs_ownership.dom())
    &&& task.assigned_outputs.dom().subset_of(task.outputs_ownership.dom())
    &&& rank(task.status) >= 1 && !is_terminal(task.status) ==> slots_filled(
        task.inputs_ownership,
        task.assigned_inputs,
    ) && slots_filled(task.outputs_ownership, task.assigned_outputs)
    &&& rank(task.status) >= 2 && !is_terminal(task.status) ==> task.participants.subset_of(
        task.approved_users,
    )
    &&& task.status == TaskStatus::Running ==> task.lease_deadline is Some
        && task.assigned_worker is Some
    &&& task.status != TaskStatus::Running ==> task.lease_deadline is None
    &&& task.result is Some <==> task.status == TaskStatus::Finished || task.status
        == TaskStatus::Failed
    &&& task.status == TaskStatus::Finished ==> task.result.unwrap() is Succeeded
    &&& task.status == TaskStatus::Failed ==> task.result.unwrap() is Failed
}

/// A new task meets the invariant.
pub proof fn lemma_created_inv(
    id: ExternalID,
    creator: Seq<char>,
    function_id: ExternalID,
    function_arguments: Map<Seq<char>, Seq<char>>,
    executor: ExecutorType,
    inputs_ownership: Map<Seq<char>, Set<Seq<char>>>,
    outputs_ownership: Map<Seq<char>, Set<Seq<char>>>,
)
    ensures
        task_inv(
            created(
                id,
                creator,
                function_id,
                function_arguments,
                executor,
                inputs_ownership,
                outputs_ownership,
            ),
        ),
{
}

/// Every event keeps the invariant.
pub proof fn lemma_transition_keeps_inv(task: TaskView, event: TaskEventView)
    requires
        task_inv(task),
        transition(task, event) is Ok,
    ensures
        task_inv(transition(task, event).unwrap()),
{
    let after = transition(task, event).unwrap();
    match event {
        TaskEventView::AssignData { caller, inputs, outputs } => {
            assert(after.assigned_inputs.dom() =~= task.assigned_inputs.dom().union(
                inputs.dom(),
            ));
            assert(after.assigned_outputs.dom() =~= task.assigned_outputs.dom().union(
                outputs.dom(),
            ));
        },
        _ => {},
    }
}

/// In a terminal state nothing changes any more: `Cancel` succeeds and
/// leaves the task as it is, every other event fails with
/// `InvalidTaskState`.
pub proof fn lemma_terminal_is_final(task: TaskView, event: TaskEventView)
    requires
        is_terminal(task.status),
    ensures
        event is Cancel ==> transition(task, event) == Ok::<TaskView, ErrorKind>(task),
        !(event is Cancel) ==> transition(task, event) == Err::<TaskView, ErrorKind>(
            ErrorKind::InvalidTaskState,
        ),
{
}

/// Approvals come from participants only, in every state that an event
/// leads to, and a task becomes `Approved` only when every participant has
/// approved.
pub proof fn lemma_approvals(task: TaskView, event: TaskEventView)
    requires
        task_inv(task),
        transition(task, event) is Ok,
    ensures
        transition(task, event).unwrap().approved_users.subset_of(
            transition(task, event).unwrap().participants,
        ),
        transition(task, event).unwrap().status == TaskStatus::Approved
            ==> transition(task, event).unwrap().participants.subset_of(
            transition(task, event).unwrap().approved_users,
        ),
        transition(task, event).unwrap().status == TaskStatus::Approved && task.status
            != TaskStatus::Approved ==> event is Approve,
{
    lemma_transition_keeps_inv(task, event);
}

/// An assignment succeeds only where each bound file is owned by at least
/// the users that the task names for its slot, and binds known slots only.
pub proof fn lemma_assignment_respects_ownership(
    task: TaskView,
    caller: Seq<char>,
    inputs: Map<Seq<char>, FileRefView>,
    outputs: Map<Seq<char>, FileRefView>,
    slot: Seq<char>,
)
    requires
        transition(task, TaskEventView::AssignData { caller, inputs, outputs }) is Ok,
    ensures
        inputs.contains_key(slot) ==> task.inputs_ownership.contains_key(slot)
            && task.inputs_ownership[slot].subset_of(inputs[slot].owners),
        outputs.contains_key(slot) ==> task.outputs_ownership.contains_key(slot)
            && task.outputs_ownership[slot].subset_of(outputs[slot].owners),
{
    if inputs.contains_key(slot) {
        assert(inputs.dom().contains(slot));
    }
    if outputs.contains_key(slot) {
        assert(outputs.dom().contains(slot));
    }
}

/// Canceling is idempotent: a second `Cancel`, whoever raises it, leaves
/// the task in the terminal state that the first one left it in.
pub proof fn lemma_cancel_idempotent(task: TaskView, first: Seq<char>, second: Seq<char>)
    requires
        transition(task, TaskEventView::Cancel { caller: first }) is Ok,
    ensures
        is_terminal(transition(task, TaskEventView::Cancel { caller: first }).unwrap().status),
        transition(
            transition(task, TaskEventView::Cancel { caller: first }).unwrap(),
            TaskEventView::Cancel { caller: second },
        ) == transition(task, TaskEventView::Cancel { caller: first }),
{
}

/// No event takes a task back: the rank of the state never falls, and the
/// identity of the task, its function and its creator stay.
pub proof fn lemma_transition_advances(task: TaskView, event: TaskEventView)
    requires
        transition(task, event) is Ok,
    ensures
        rank(transition(task, event).unwrap().status) >= rank(task.status),
        transition(task, event).unwrap().id == task.id,
        transition(task, event).unwrap().function_id == task.function_id,
        transition(task, event).unwrap().creator == task.creator,
        transition(task, event).unwrap().participants == task.participants,
        event is Pull ==> task.status == TaskStatus::Staged && transition(
            task,
            event,
        ).unwrap().status == TaskStatus::Running,
{
}

} // verus!
