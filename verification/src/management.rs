//! The management service: the RPCs by which users register files and
//! functions and author tasks. Every RPC answers with its outcome and with
//! the audit entry that records it.

use crate::address::Ipv4Addr;
use crate::audit::entry::{Entry, EntryBuilder, EntryView};
use crate::entities::{
    clone_hash, has_slot, hash_text, required_names, slot_names, FileCrypto, Function, InputFile, OutputFile, SlotSpec,
};
use crate::error::ErrorKind;
use crate::files::{FileAuthTag, FileRef, FileRefView};
use crate::ids::{ExternalID, IdKind};
use crate::names::{names_of, NameSet};
use crate::repository::{advanced, applied, in_use, rewritten, Repository, TaskRow};
use crate::audit::index::{fields_in, fields_of, record_of_log, FieldValue, LogService};
use crate::scheduler::{
    cancel_effect, heartbeat_effect, pull_effect, released, tags_of, tags_persisted,
    ExecutorCommand, ExecutorStatus, PullOutcome, Scheduler,
};
use crate::table::{Key, NameMap};
use crate::task::{
    created, files_view, is_terminal, lemma_terminal_is_final, ownership_view, task_inv, texts_view,
    ExecutorType, Task, TaskEvent, TaskEventView, TaskOutcome, TaskStatus, TaskView,
};
use vstd::prelude::*;
use vstd::string::*;

verus! {

/// Who asks, from where and when, and what the gateway and the
/// access-control service have said of the request.
pub struct RequestContext {
    /// The authenticated user.
    pub user: String,
    /// The address that the request came from.
    pub ip: Ipv4Addr,
    /// The time of the request, in microseconds since the Unix epoch.
    pub microsecond: i64,
    /// Whether the caller's credential is valid and the access-control
    /// service allows the request.
    pub authorized: bool,
}

/// The answer to an RPC: its outcome and the audit entry that records it.
pub struct Reply<T> {
    pub outcome: Result<T, ErrorKind>,
    pub audit: Entry,
}

/// The audit entry of an RPC named `message` that `context` asked for.
pub open spec fn audit_of(context: &RequestContext, message: Seq<char>, succeeded: bool) -> EntryView {
    EntryView {
        microsecond: context.microsecond,
        ip: context.ip,
        user: context.user@,
        message,
        result: succeeded,
    }
}

/// The answer to the RPC named `message` with the outcome `outcome`.
pub fn reply<T>(context: &RequestContext, message: &str, outcome: Result<T, ErrorKind>) -> (reply:
    Reply<T>)
    ensures
        reply.outcome == outcome,
        reply.audit@ == audit_of(context, message@, outcome is Ok),
{
    let succeeded = outcome.is_ok();
    let audit = EntryBuilder::new().microsecond(context.microsecond).ip(context.ip).user(
        context.user.clone(),
    ).message(String::from_str(message)).result(succeeded).build_at(context.microsecond);
    Reply { outcome, audit }
}

/// The outcome of an RPC whose audit entry was or was not saved: an RPC whose
/// entry could not be saved fails, whatever it had come to.
pub fn sealed<T>(outcome: Result<T, ErrorKind>, audit_saved: bool) -> (sealed: Result<T, ErrorKind>)
    ensures
        audit_saved ==> sealed == outcome,
        !audit_saved ==> sealed == Err::<T, ErrorKind>(ErrorKind::StorageUnavailable),
{
    if audit_saved {
        outcome
    } else {
        Err(ErrorKind::StorageUnavailable)
    }
}

/// The management service with the scheduler that it publishes to.
pub struct Management {
    pub repository: Repository,
    pub scheduler: Scheduler,
}

/// What a user asks for when creating a task.
pub struct CreateTaskRequest {
    pub function_id: ExternalID,
    pub function_arguments: NameMap<String>,
    pub executor: ExecutorType,
    pub inputs_ownership: NameMap<NameSet>,
    pub outputs_ownership: NameMap<NameSet>,
}

/// Why a request to create a task is refused, if it is: the function must be
/// on record, the arguments must be among those that the function takes,
/// the slots must be among the function's slots, and every slot that is not
/// optional must be among them.
pub open spec fn create_refusal(
    repository: &Repository,
    context: &RequestContext,
    request: &CreateTaskRequest,
) -> Option<ErrorKind> {
    if !context.authorized {
        Some(ErrorKind::PermissionDenied)
    } else if request.function_id.kind != IdKind::Function {
        Some(ErrorKind::InvalidArgument)
    } else if !repository.functions@.contains_key(request.function_id) {
        Some(ErrorKind::NotFound)
    } else {
        let function = repository.functions@[request.function_id];
        if !request.function_arguments@.dom().subset_of(function.arguments@)
            || !request.inputs_ownership@.dom().subset_of(slot_names(function.inputs@))
            || !request.outputs_ownership@.dom().subset_of(slot_names(function.outputs@))
            || !required_names(function.inputs@).subset_of(request.inputs_ownership@.dom())
            || !required_names(function.outputs@).subset_of(request.outputs_ownership@.dom()) {
            Some(ErrorKind::InvalidArgument)
        } else {
            None
        }
    }
}

/// Whether every name bound in `map` is a member of `allowed`.
fn keys_within<V>(map: &NameMap<V>, allowed: &NameSet) -> (within: bool)
    ensures
        within == map@.dom().subset_of(allowed@),
{
    let n = map.len();
    let mut i: usize = 0;
    while i < n
        invariant
            i <= n,
            n == map.entries().len(),
            map.listed(),
            forall|j: int| 0 <= j < i ==> allowed@.contains((#[trigger] map.entries()[j]).0@),
        decreases n - i,
    {
        if !allowed.contains(map.name_at(i)) {
            proof {
                assert(map@.dom().contains(map.entries()[i as int].0@));
            }
            return false;
        }
        i += 1;
    }
    proof {
        assert forall|name: Seq<char>| map@.dom().contains(name) implies allowed@.contains(name) by {
            let j = choose|j: int|
                0 <= j < map.entries().len() && (#[trigger] map.entries()[j]).0@ == name;
            assert(allowed@.contains(map.entries()[j].0@));
        }
    }
    true
}

/// Whether every name bound in `map` is the name of one of `slots`.
fn keys_are_slots<V>(map: &NameMap<V>, slots: &Vec<SlotSpec>) -> (within: bool)
    ensures
        within == map@.dom().subset_of(slot_names(slots@)),
{
    let n = map.len();
    let mut i: usize = 0;
    while i < n
        invariant
            i <= n,
            n == map.entries().len(),
            map.listed(),
            forall|j: int|
                0 <= j < i ==> slot_names(slots@).contains((#[trigger] map.entries()[j]).0@),
        decreases n - i,
    {
        if !has_slot(slots, map.name_at(i)) {
            proof {
                assert(map@.dom().contains(map.entries()[i as int].0@));
            }
            return false;
        }
        i += 1;
    }
    proof {
        assert forall|name: Seq<char>| map@.dom().contains(name) implies slot_names(
            slots@,
        ).contains(name) by {
            let j = choose|j: int|
                0 <= j < map.entries().len() && (#[trigger] map.entries()[j]).0@ == name;
            assert(slot_names(slots@).contains(map.entries()[j].0@));
        }
    }
    true
}


/// The files that the requested input bindings stand for, or why they stand
/// for none: a bound identifier of another kind is an invalid argument, a
/// bound identifier that is not on record is not found.
pub open spec fn input_refusal(
    requested: Map<Seq<char>, ExternalID>,
    files: Map<ExternalID, InputFile>,
) -> Option<ErrorKind> {
    if exists|slot: Seq<char>|
        requested.contains_key(slot) && (#[trigger] requested[slot]).kind != IdKind::Input {
        Some(ErrorKind::InvalidArgument)
    } else if exists|slot: Seq<char>|
        requested.contains_key(slot) && !files.contains_key(#[trigger] requested[slot]) {
        Some(ErrorKind::NotFound)
    } else {
        None
    }
}

/// The requested input bindings, each with the owners of its file.
pub open spec fn input_files(
    requested: Map<Seq<char>, ExternalID>,
    files: Map<ExternalID, InputFile>,
) -> Map<Seq<char>, FileRefView> {
    requested.map_values(|id: ExternalID| FileRefView { id, owners: files[id].owner@ })
}

/// Looks up the file of each requested input binding.
fn resolve_inputs(repository: &Repository, requested: &NameMap<ExternalID>) -> (resolved: Result<
    NameMap<FileRef>,
    ErrorKind,
>)
    ensures
        match input_refusal(requested@, repository.inputs@) {
            Some(error) => resolved == Err::<NameMap<FileRef>, ErrorKind>(error),
            None => resolved is Ok && files_view(resolved.unwrap()@) == input_files(
                requested@,
                repository.inputs@,
            ),
        },
{
    let n = requested.len();
    let mut i: usize = 0;
    while i < n
        invariant
            i <= n,
            n == requested.entries().len(),
            requested.listed(),
            forall|j: int|
                0 <= j < i ==> (#[trigger] requested.entries()[j]).1.kind == IdKind::Input,
        decreases n - i,
    {
        if requested.value_at(i).kind != IdKind::Input {
            proof {
                let slot = requested.entries()[i as int].0@;
                assert(requested@.contains_key(slot) && requested@[slot].kind != IdKind::Input);
            }
            return Err(ErrorKind::InvalidArgument);
        }
        i += 1;
    }
    proof {
        assert forall|slot: Seq<char>| requested@.contains_key(slot) implies (
        #[trigger] requested@[slot]).kind == IdKind::Input by {
            let j = choose|j: int|
                0 <= j < requested.entries().len() && (#[trigger] requested.entries()[j]).0@
                    == slot;
            assert(requested@[requested.entries()[j].0@] == requested.entries()[j].1);
        }
    }
    let mut files: NameMap<FileRef> = NameMap::new();
    let mut i: usize = 0;
    while i < n
        invariant
            i <= n,
            n == requested.entries().len(),
            requested.listed(),
            forall|slot: Seq<char>|
                requested@.contains_key(slot) ==> (#[trigger] requested@[slot]).kind
                    == IdKind::Input,
            forall|j: int|
                0 <= j < i ==> repository.inputs@.contains_key(
                    (#[trigger] requested.entries()[j]).1,
                ),
            forall|slot: Seq<char>|
                files@.contains_key(slot) <==> exists|j: int|
                    0 <= j < i && (#[trigger] requested.entries()[j]).0@ == slot,
            forall|j: int|
                0 <= j < i ==> files@[(#[trigger] requested.entries()[j]).0@]@ == (FileRefView {
                    id: requested.entries()[j].1,
                    owners: repository.inputs@[requested.entries()[j].1].owner@,
                }),
        decreases n - i,
    {
        let slot = requested.name_at(i);
        let id = *requested.value_at(i);
        match repository.get_input(&id) {
            None => {
                proof {
                    let name = requested.entries()[i as int].0@;
                    assert(requested@.contains_key(name) && !repository.inputs@.contains_key(
                        requested@[name],
                    ));
                }
                return Err(ErrorKind::NotFound);
            },
            Some(file) => {
                let ghost before = files@;
                files.insert(slot.copy(), FileRef { id, owners: file.owner.clone() });
                proof {
                    assert forall|slot: Seq<char>| files@.contains_key(slot) <==> exists|j: int|
                        0 <= j < i + 1 && (#[trigger] requested.entries()[j]).0@ == slot by {
                        if files@.contains_key(slot) {
                            if slot == requested.entries()[i as int].0@ {
                            } else {
                                assert(before.contains_key(slot));
                                let j = choose|j: int|
                                    0 <= j < i && (#[trigger] requested.entries()[j]).0@ == slot;
                                assert(0 <= j < i + 1 && requested.entries()[j].0@ == slot);
                            }
                        }
                        if exists|j: int|
                            0 <= j < i + 1 && (#[trigger] requested.entries()[j]).0@ == slot {
                            let j = choose|j: int|
                                0 <= j < i + 1 && (#[trigger] requested.entries()[j]).0@ == slot;
                            if j < i {
                                assert(before.contains_key(slot));
                            }
                        }
                    }
                    assert forall|j: int| 0 <= j < i + 1 implies files@[(
                    #[trigger] requested.entries()[j]).0@]@ == (FileRefView {
                        id: requested.entries()[j].1,
                        owners: repository.inputs@[requested.entries()[j].1].owner@,
                    }) by {
                        if j < i {
                            assert(requested.entries()[j].0@ != requested.entries()[i as int].0@);
                        }
                    }
                }
            },
        }
        i += 1;
    }
    proof {
        let target = input_files(requested@, repository.inputs@);
        assert forall|slot: Seq<char>| requested@.contains_key(slot) implies (
        repository.inputs@.contains_key(#[trigger] requested@[slot]) && files@.contains_key(slot)
            && files@[slot]@ == target[slot]) by {
            let j = choose|j: int|
                0 <= j < requested.entries().len() && (#[trigger] requested.entries()[j]).0@
                    == slot;
            assert(requested@[requested.entries()[j].0@] == requested.entries()[j].1);
            assert(repository.inputs@.contains_key(requested.entries()[j].1));
        }
        assert forall|slot: Seq<char>| files@.contains_key(slot) implies requested@.contains_key(
            slot,
        ) by {
            let j = choose|j: int| 0 <= j < i && (#[trigger] requested.entries()[j]).0@ == slot;
            assert(requested@.contains_key(requested.entries()[j].0@));
        }
        assert(files_view(files@) =~= target);
    }
    Ok(files)
}

/// The files that the requested output bindings stand for, or why they stand
/// for none: a bound identifier of another kind is an invalid argument, a
/// bound identifier that is not on record is not found.
pub open spec fn output_refusal(
    requested: Map<Seq<char>, ExternalID>,
    files: Map<ExternalID, OutputFile>,
) -> Option<ErrorKind> {
    if exists|slot: Seq<char>|
        requested.contains_key(slot) && (#[trigger] requested[slot]).kind != IdKind::Output {
        Some(ErrorKind::InvalidArgument)
    } else if exists|slot: Seq<char>|
        requested.contains_key(slot) && !files.contains_key(#[trigger] requested[slot]) {
        Some(ErrorKind::NotFound)
    } else {
        None
    }
}

/// The requested output bindings, each with the owners of its file.
pub open spec fn output_files(
    requested: Map<Seq<char>, ExternalID>,
    files: Map<ExternalID, OutputFile>,
) -> Map<Seq<char>, FileRefView> {
    requested.map_values(|id: ExternalID| FileRefView { id, owners: files[id].owner@ })
}

/// Looks up the file of each requested output binding.
fn resolve_outputs(repository: &Repository, requested: &NameMap<ExternalID>) -> (resolved: Result<
    NameMap<FileRef>,
    ErrorKind,
>)
    ensures
        match output_refusal(requested@, repository.outputs@) {
            Some(error) => resolved == Err::<NameMap<FileRef>, ErrorKind>(error),
            None => resolved is Ok && files_view(resolved.unwrap()@) == output_files(
                requested@,
                repository.outputs@,
            ),
        },
{
    let n = requested.len();
    let mut i: usize = 0;
    while i < n
        invariant
            i <= n,
            n == requested.entries().len(),
            requested.listed(),
            forall|j: int|
                0 <= j < i ==> (#[trigger] requested.entries()[j]).1.kind == IdKind::Output,
        decreases n - i,
    {
        if requested.value_at(i).kind != IdKind::Output {
            proof {
                let slot = requested.entries()[i as int].0@;
                assert(requested@.contains_key(slot) && requested@[slot].kind != IdKind::Output);
            }
            return Err(ErrorKind::InvalidArgument);
        }
        i += 1;
    }
    proof {
        assert forall|slot: Seq<char>| requested@.contains_key(slot) implies (
        #[trigger] requested@[slot]).kind == IdKind::Output by {
            let j = choose|j: int|
                0 <= j < requested.entries().len() && (#[trigger] requested.entries()[j]).0@
                    == slot;
            assert(requested@[requested.entries()[j].0@] == requested.entries()[j].1);
        }
    }
    let mut files: NameMap<FileRef> = NameMap::new();
    let mut i: usize = 0;
    while i < n
        invariant
            i <= n,
            n == requested.entries().len(),
            requested.listed(),
            forall|slot: Seq<char>|
                requested@.contains_key(slot) ==> (#[trigger] requested@[slot]).kind
                    == IdKind::Output,
            forall|j: int|
                0 <= j < i ==> repository.outputs@.contains_key(
                    (#[trigger] requested.entries()[j]).1,
                ),
            forall|slot: Seq<char>|
                files@.contains_key(slot) <==> exists|j: int|
                    0 <= j < i && (#[trigger] requested.entries()[j]).0@ == slot,
            forall|j: int|
                0 <= j < i ==> files@[(#[trigger] requested.entries()[j]).0@]@ == (FileRefView {
                    id: requested.entries()[j].1,
                    owners: repository.outputs@[requested.entries()[j].1].owner@,
                }),
        decreases n - i,
    {
        let slot = requested.name_at(i);
        let id = *requested.value_at(i);
        match repository.get_output(&id) {
            None => {
                proof {
                    let name = requested.entries()[i as int].0@;
                    assert(requested@.contains_key(name) && !repository.outputs@.contains_key(
                        requested@[name],
                    ));
                }
                return Err(ErrorKind::NotFound);
            },
            Some(file) => {
                let ghost before = files@;
                files.insert(slot.copy(), FileRef { id, owners: file.owner.clone() });
                proof {
                    assert forall|slot: Seq<char>| files@.contains_key(slot) <==> exists|j: int|
                        0 <= j < i + 1 && (#[trigger] requested.entries()[j]).0@ == slot by {
                        if files@.contains_key(slot) {
                            if slot == requested.entries()[i as int].0@ {
                            } else {
                                assert(before.contains_key(slot));
                                let j = choose|j: int|
                                    0 <= j < i && (#[trigger] requested.entries()[j]).0@ == slot;
                                assert(0 <= j < i + 1 && requested.entries()[j].0@ == slot);
                            }
                        }
                        if exists|j: int|
                            0 <= j < i + 1 && (#[trigger] requested.entries()[j]).0@ == slot {
                            let j = choose|j: int|
                                0 <= j < i + 1 && (#[trigger] requested.entries()[j]).0@ == slot;
                            if j < i {
                                assert(before.contains_key(slot));
                            }
                        }
                    }
                    assert forall|j: int| 0 <= j < i + 1 implies files@[(
                    #[trigger] requested.entries()[j]).0@]@ == (FileRefView {
                        id: requested.entries()[j].1,
                        owners: repository.outputs@[requested.entries()[j].1].owner@,
                    }) by {
                        if j < i {
                            assert(requested.entries()[j].0@ != requested.entries()[i as int].0@);
                        }
                    }
                }
            },
        }
        i += 1;
    }
    proof {
        let target = output_files(requested@, repository.outputs@);
        assert forall|slot: Seq<char>| requested@.contains_key(slot) implies (
        repository.outputs@.contains_key(#[trigger] requested@[slot]) && files@.contains_key(slot)
            && files@[slot]@ == target[slot]) by {
            let j = choose|j: int|
                0 <= j < requested.entries().len() && (#[trigger] requested.entries()[j]).0@
                    == slot;
            assert(requested@[requested.entries()[j].0@] == requested.entries()[j].1);
            assert(repository.outputs@.contains_key(requested.entries()[j].1));
        }
        assert forall|slot: Seq<char>| files@.contains_key(slot) implies requested@.contains_key(
            slot,
        ) by {
            let j = choose|j: int| 0 <= j < i && (#[trigger] requested.entries()[j]).0@ == slot;
            assert(requested@.contains_key(requested.entries()[j].0@));
        }
        assert(files_view(files@) =~= target);
    }
    Ok(files)
}

/// What a request to bind files to the slots of a task comes to before the
/// task is asked: the refusal, or the event that is put to the task.
pub open spec fn assignment_refusal(
    repository: &Repository,
    context: &RequestContext,
    inputs: Map<Seq<char>, ExternalID>,
    outputs: Map<Seq<char>, ExternalID>,
) -> Option<ErrorKind> {
    if !context.authorized {
        Some(ErrorKind::PermissionDenied)
    } else if input_refusal(inputs, repository.inputs@) is Some {
        input_refusal(inputs, repository.inputs@)
    } else {
        output_refusal(outputs, repository.outputs@)
    }
}

/// The outcome of putting `event` to the task `id` in the name of an
/// authorized caller, and what it leaves of the task table.
pub open spec fn task_rpc(
    before: Map<ExternalID, TaskRow>,
    after: Map<ExternalID, TaskRow>,
    id: ExternalID,
    event: TaskEventView,
    outcome: Result<(), ErrorKind>,
) -> bool {
    match applied(before, id, event) {
        Ok(task) => outcome is Ok && rewritten(before, after, id, task),
        Err(error) => outcome == Err::<(), ErrorKind>(error) && after == before,
    }
}

/// What a request to cancel the task `id` comes to.
pub open spec fn cancel_rpc(
    before: &Management,
    after: &Management,
    context: &RequestContext,
    id: ExternalID,
    outcome: Result<(), ErrorKind>,
) -> bool {
    let tasks = before.repository.tasks@;
    if !context.authorized {
        outcome == Err::<(), ErrorKind>(ErrorKind::PermissionDenied) && after.repository.tasks
            == before.repository.tasks && after.scheduler == before.scheduler
    } else if id.kind != IdKind::Task {
        outcome == Err::<(), ErrorKind>(ErrorKind::InvalidArgument) && after.repository.tasks
            == before.repository.tasks && after.scheduler == before.scheduler
    } else if !tasks.contains_key(id) {
        outcome == Err::<(), ErrorKind>(ErrorKind::NotFound) && after.repository.tasks
            == before.repository.tasks && after.scheduler == before.scheduler
    } else if is_terminal(tasks[id].task.status) {
        outcome is Ok && after.repository.tasks == before.repository.tasks && after.scheduler
            == before.scheduler
    } else if tasks[id].task.creator@ != context.user@ {
        outcome == Err::<(), ErrorKind>(ErrorKind::PermissionDenied) && after.repository.tasks
            == before.repository.tasks && after.scheduler == before.scheduler
    } else if tasks[id].task.status == TaskStatus::Staged || tasks[id].task.status
        == TaskStatus::Running {
        &&& outcome is Ok
        &&& after.scheduler.queue == before.scheduler.queue
        &&& after.scheduler.workers == before.scheduler.workers
        &&& after.scheduler.leases == before.scheduler.leases
        &&& cancel_effect(
            &before.scheduler,
            &before.repository,
            &after.scheduler,
            &after.repository,
            id,
        )
    } else {
        &&& after.scheduler == before.scheduler
        &&& task_rpc(
            tasks,
            after.repository.tasks@,
            id,
            TaskEventView::Cancel { caller: context.user@ },
            outcome,
        )
    }
}

/// Why a request to delete the function `id` is refused, if it is.
pub open spec fn delete_refusal(repository: &Repository, context: &RequestContext, id: ExternalID) -> Option<
    ErrorKind,
> {
    if !context.authorized {
        Some(ErrorKind::PermissionDenied)
    } else if !repository.functions@.contains_key(id) {
        Some(ErrorKind::NotFound)
    } else if in_use(repository.tasks@, id) {
        Some(ErrorKind::InvalidTaskState)
    } else {
        None
    }
}

/// Whether the function `function` is listed for `user`: it is public, or
/// `user` owns it.
pub open spec fn listed_for(function: Function, user: Seq<char>) -> bool {
    function.public || function.owner@ == user
}

/// What a user gives when registering a function.
pub struct FunctionSpec {
    pub name: String,
    pub description: String,
    pub executor_type: ExecutorType,
    pub payload: Vec<u8>,
    pub arguments: NameSet,
    pub inputs: Vec<SlotSpec>,
    pub outputs: Vec<SlotSpec>,
    pub public: bool,
    pub usage_quota: Option<i32>,
}

/// The function `function` is what `spec` describes, under `id`, owned by
/// `owner`.
pub open spec fn function_matches(function: Function, id: ExternalID, owner: Seq<char>, spec: FunctionSpec) -> bool {
    &&& function.id == id
    &&& function.owner@ == owner
    &&& function.name == spec.name
    &&& function.description == spec.description
    &&& function.executor_type == spec.executor_type
    &&& function.payload == spec.payload
    &&& function.arguments == spec.arguments
    &&& function.inputs == spec.inputs
    &&& function.outputs == spec.outputs
    &&& function.public == spec.public
    &&& function.usage_quota == spec.usage_quota
}

/// The table `after` is `before` with one more entry, under `id`.
pub open spec fn one_added<V>(before: Map<ExternalID, V>, after: Map<ExternalID, V>, id: ExternalID) -> bool {
    &&& !before.contains_key(id)
    &&& after.dom() == before.dom().insert(id)
    &&& forall|other: ExternalID|
        before.contains_key(other) ==> #[trigger] after[other] == before[other]
}

/// Why a new entity is not stored under `id`, if it is not: the request is
/// not authorized, `id` is of another kind than `kind`, or `id` is taken.
pub open spec fn store_refusal<V>(
    context: &RequestContext,
    table: Map<ExternalID, V>,
    id: ExternalID,
    kind: IdKind,
) -> Option<ErrorKind> {
    if !context.authorized {
        Some(ErrorKind::PermissionDenied)
    } else if id.kind != kind {
        Some(ErrorKind::InvalidArgument)
    } else if table.contains_key(id) {
        Some(ErrorKind::Internal)
    } else {
        None
    }
}

/// The set that holds `user` alone.
fn only(user: &String) -> (owner: NameSet)
    ensures
        owner@ == Set::<Seq<char>>::empty().insert(user@),
{
    let mut owner = NameSet::new();
    owner.insert(user.clone());
    owner
}

/// The input file `file` is on record under `id` with these values.
pub open spec fn input_is(
    file: InputFile,
    id: ExternalID,
    owner: Set<Seq<char>>,
    url: Seq<char>,
    crypto: FileCrypto,
    cmac: FileAuthTag,
    hash: Option<Seq<char>>,
) -> bool {
    &&& file.id == id
    &&& file.owner@ == owner
    &&& file.url@ == url
    &&& file.crypto == crypto
    &&& file.cmac == cmac
    &&& hash_text(file.hash) == hash
}

/// The output file `file` is on record under `id` with these values.
pub open spec fn output_is(
    file: OutputFile,
    id: ExternalID,
    owner: Set<Seq<char>>,
    url: Seq<char>,
    crypto: FileCrypto,
    cmac: Option<FileAuthTag>,
    hash: Option<Seq<char>>,
) -> bool {
    &&& file.id == id
    &&& file.owner@ == owner
    &&& file.url@ == url
    &&& file.crypto == crypto
    &&& file.cmac == cmac
    &&& hash_text(file.hash) == hash
}

/// What stands against registering the output file `output` as an input for
/// the caller, if anything: the output must be on record, the caller must be
/// one of its owners, and a task must have written it.
pub open spec fn reuse_need(
    repository: &Repository,
    context: &RequestContext,
    output: ExternalID,
) -> Option<ErrorKind> {
    if !repository.outputs@.contains_key(output) {
        Some(ErrorKind::NotFound)
    } else if !repository.outputs@[output].owner@.contains(context.user@) {
        Some(ErrorKind::PermissionDenied)
    } else if repository.outputs@[output].cmac is None {
        Some(ErrorKind::InvalidArgument)
    } else {
        None
    }
}

/// Why an output file is not registered as an input under `id`, if it is
/// not: what stands against storing a new input under `id`, and then what
/// stands against the output.
pub open spec fn reuse_refusal(
    repository: &Repository,
    context: &RequestContext,
    id: ExternalID,
    output: ExternalID,
) -> Option<ErrorKind> {
    if store_refusal(context, repository.inputs@, id, IdKind::Input) is Some {
        store_refusal(context, repository.inputs@, id, IdKind::Input)
    } else {
        reuse_need(repository, context, output)
    }
}

/// Whether every slot of `slots` that is not optional is bound in `map`.
fn slots_are_keys<V>(slots: &Vec<SlotSpec>, map: &NameMap<V>) -> (bound: bool)
    ensures
        bound == required_names(slots@).subset_of(map@.dom()),
{
    let mut i: usize = 0;
    while i < slots.len()
        invariant
            i <= slots@.len(),
            forall|j: int|
                0 <= j < i && !(#[trigger] slots@[j]).optional ==> map@.contains_key(
                    slots@[j].name@,
                ),
        decreases slots@.len() - i,
    {
        if !slots[i].optional && !map.contains_key(&slots[i].name) {
            proof {
                assert(required_names(slots@).contains(slots@[i as int].name@));
            }
            return false;
        }
        i += 1;
    }
    proof {
        assert forall|name: Seq<char>| required_names(slots@).contains(
            name,
        ) implies map@.dom().contains(name) by {
            let j = choose|j: int|
                0 <= j < slots@.len() && (#[trigger] slots@[j]).name@ == name
                    && !slots@[j].optional;
            assert(map@.contains_key(slots@[j].name@));
        }
    }
    true
}

impl Management {
    /// The service over an empty repository and an idle scheduler.
    pub fn new() -> (service: Self)
        ensures
            service.repository.wf(),
            service.repository.users@ == Map::<Seq<char>, crate::entities::User>::empty(),
            service.repository.functions@ == Map::<ExternalID, Function>::empty(),
            service.repository.inputs@ == Map::<ExternalID, InputFile>::empty(),
            service.repository.outputs@ == Map::<ExternalID, OutputFile>::empty(),
            service.repository.tasks@ == Map::<ExternalID, TaskRow>::empty(),
            service.scheduler.queue@.len() == 0,
            service.scheduler.workers@ == Map::<Seq<char>, crate::scheduler::WorkerEntry>::empty(),
            service.scheduler.cancellations@ == Map::<ExternalID, ()>::empty(),
            service.scheduler.leases@ == Map::<ExternalID, u64>::empty(),
    {
        Management { repository: Repository::new(), scheduler: Scheduler::new() }
    }

    /// Why `request` is refused, if it is.
    fn check_create(&self, context: &RequestContext, request: &CreateTaskRequest) -> (refusal:
        Option<ErrorKind>)
        ensures
            refusal == create_refusal(&self.repository, context, request),
    {
        if !context.authorized {
            return Some(ErrorKind::PermissionDenied);
        }
        if request.function_id.kind != IdKind::Function {
            return Some(ErrorKind::InvalidArgument);
        }
        match self.repository.get_function(&request.function_id) {
            None => Some(ErrorKind::NotFound),
            Some(function) => {
                if !keys_within(&request.function_arguments, &function.arguments)
                    || !keys_are_slots(&request.inputs_ownership, &function.inputs)
                    || !keys_are_slots(&request.outputs_ownership, &function.outputs)
                    || !slots_are_keys(&function.inputs, &request.inputs_ownership)
                    || !slots_are_keys(&function.outputs, &request.outputs_ownership) {
                    Some(ErrorKind::InvalidArgument)
                } else {
                    None
                }
            },
        }
    }

    /// Creates the task that `request` describes under the identifier `id`,
    /// with the caller as its creator. A request that is not authorized, names
    /// no function on record, or names arguments or slots that the function
    /// does not have is refused; so is an identifier that is no task
    /// identifier or is taken.
    pub fn create_task_with(
        &mut self,
        context: &RequestContext,
        id: ExternalID,
        request: CreateTaskRequest,
    ) -> (reply: Reply<ExternalID>)
        requires
            old(self).repository.wf(),
        ensures
            final(self).repository.wf(),
            final(self).scheduler == old(self).scheduler,
            final(self).repository.same_but_tasks(&old(self).repository),
            advanced(old(self).repository.tasks@, final(self).repository.tasks@),
            reply.audit@ == audit_of(context, "create_task"@, reply.outcome is Ok),
            reply.outcome is Err ==> final(self).repository.tasks == old(self).repository.tasks,
            match create_refusal(&old(self).repository, context, &request) {
                Some(error) => reply.outcome == Err::<ExternalID, ErrorKind>(error),
                None => if id.kind != IdKind::Task {
                    reply.outcome == Err::<ExternalID, ErrorKind>(ErrorKind::InvalidArgument)
                } else if old(self).repository.has_task(id) {
                    reply.outcome == Err::<ExternalID, ErrorKind>(ErrorKind::Internal)
                } else {
                    &&& reply.outcome == Ok::<ExternalID, ErrorKind>(id)
                    &&& final(self).repository.tasks@.dom() == old(self).repository.tasks@.dom().insert(id)
                    &&& final(self).repository.tasks@[id].version == 0
                    &&& final(self).repository.task(id) == created(
                        id,
                        context.user@,
                        request.function_id,
                        texts_view(request.function_arguments@),
                        request.executor,
                        ownership_view(request.inputs_ownership@),
                        ownership_view(request.outputs_ownership@),
                    )
                    &&& forall|other: ExternalID|
                        old(self).repository.tasks@.contains_key(other)
                            ==> #[trigger] final(self).repository.tasks@[other] == old(self).repository.tasks@[other]
                },
            },
    {
        match self.check_create(context, &request) {
            Some(error) => {
                return reply(context, "create_task", Err(error));
            },
            None => {},
        }
        if id.kind != IdKind::Task {
            return reply(context, "create_task", Err(ErrorKind::InvalidArgument));
        }
        if self.repository.tasks.contains_key(&id) {
            return reply(context, "create_task", Err(ErrorKind::Internal));
        }
        let task = Task::create(
            id,
            context.user.clone(),
            request.function_id,
            request.function_arguments,
            request.executor,
            request.inputs_ownership,
            request.outputs_ownership,
        );
        let _ = self.repository.insert_task(task);
        assert(self.repository.tasks@.dom() =~= old(self).repository.tasks@.dom().insert(id));
        reply(context, "create_task", Ok(id))
    }

    /// Creates the task that `request` describes under a fresh identifier.
    pub fn create_task(&mut self, context: &RequestContext, request: CreateTaskRequest) -> (reply:
        Reply<ExternalID>)
        requires
            old(self).repository.wf(),
        ensures
            final(self).repository.wf(),
            final(self).scheduler == old(self).scheduler,
            final(self).repository.same_but_tasks(&old(self).repository),
            advanced(old(self).repository.tasks@, final(self).repository.tasks@),
            reply.audit@ == audit_of(context, "create_task"@, reply.outcome is Ok),
            create_refusal(&old(self).repository, context, &request) is None
                ==> reply.outcome is Ok || reply.outcome == Err::<ExternalID, ErrorKind>(
                ErrorKind::Internal,
            ),
            reply.outcome is Err ==> final(self).repository.tasks == old(self).repository.tasks,
            create_refusal(&old(self).repository, context, &request) matches Some(error)
                ==> reply.outcome == Err::<ExternalID, ErrorKind>(error),
            reply.outcome matches Ok(id) ==> id.kind == IdKind::Task
                && !old(self).repository.has_task(id) && final(self).repository.task(id) == created(
                id,
                context.user@,
                request.function_id,
                texts_view(request.function_arguments@),
                request.executor,
                ownership_view(request.inputs_ownership@),
                ownership_view(request.outputs_ownership@),
            ),
    {
        let id = ExternalID::mint(IdKind::Task);
        self.create_task_with(context, id, request)
    }

    /// Binds the files `inputs` and `outputs` to the slots of the task `id`.
    /// Each file is looked up with its owners; the task then decides.
    pub fn assign_data(
        &mut self,
        context: &RequestContext,
        id: &ExternalID,
        inputs: &NameMap<ExternalID>,
        outputs: &NameMap<ExternalID>,
    ) -> (reply: Reply<()>)
        requires
            old(self).repository.wf(),
        ensures
            final(self).repository.wf(),
            final(self).scheduler == old(self).scheduler,
            final(self).repository.same_but_tasks(&old(self).repository),
            advanced(old(self).repository.tasks@, final(self).repository.tasks@),
            reply.audit@ == audit_of(context, "assign_data"@, reply.outcome is Ok),
            match assignment_refusal(&old(self).repository, context, inputs@, outputs@) {
                Some(error) => reply.outcome == Err::<(), ErrorKind>(error)
                    && final(self).repository.tasks == old(self).repository.tasks,
                None => task_rpc(
                    old(self).repository.tasks@,
                    final(self).repository.tasks@,
                    *id,
                    TaskEventView::AssignData {
                        caller: context.user@,
                        inputs: input_files(inputs@, old(self).repository.inputs@),
                        outputs: output_files(outputs@, old(self).repository.outputs@),
                    },
                    reply.outcome,
                ),
            },
    {
        if !context.authorized {
            return reply(context, "assign_data", Err(ErrorKind::PermissionDenied));
        }
        let input_refs = match resolve_inputs(&self.repository, inputs) {
            Err(error) => {
                return reply(context, "assign_data", Err(error));
            },
            Ok(files) => files,
        };
        let output_refs = match resolve_outputs(&self.repository, outputs) {
            Err(error) => {
                return reply(context, "assign_data", Err(error));
            },
            Ok(files) => files,
        };
        let event = TaskEvent::AssignData {
            caller: context.user.clone(),
            inputs: input_refs,
            outputs: output_refs,
        };
        let outcome = self.repository.transact(id, &event);
        reply(context, "assign_data", outcome)
    }

    /// Records the caller's approval of the task `id`.
    pub fn approve_task(&mut self, context: &RequestContext, id: &ExternalID) -> (reply: Reply<()>)
        requires
            old(self).repository.wf(),
        ensures
            final(self).repository.wf(),
            final(self).scheduler == old(self).scheduler,
            final(self).repository.same_but_tasks(&old(self).repository),
            advanced(old(self).repository.tasks@, final(self).repository.tasks@),
            reply.audit@ == audit_of(context, "approve_task"@, reply.outcome is Ok),
            !context.authorized ==> reply.outcome == Err::<(), ErrorKind>(
                ErrorKind::PermissionDenied,
            ) && final(self).repository.tasks == old(self).repository.tasks,
            context.authorized ==> task_rpc(
                old(self).repository.tasks@,
                final(self).repository.tasks@,
                *id,
                TaskEventView::Approve { caller: context.user@ },
                reply.outcome,
            ),
    {
        if !context.authorized {
            return reply(context, "approve_task", Err(ErrorKind::PermissionDenied));
        }
        let event = TaskEvent::Approve { caller: context.user.clone() };
        let outcome = self.repository.transact(id, &event);
        reply(context, "approve_task", outcome)
    }

    /// Stages the approved task `id` and publishes it to the scheduler's
    /// ready queue.
    pub fn invoke_task(&mut self, context: &RequestContext, id: &ExternalID) -> (reply: Reply<()>)
        requires
            old(self).repository.wf(),
        ensures
            final(self).repository.wf(),
            final(self).repository.same_but_tasks(&old(self).repository),
            advanced(old(self).repository.tasks@, final(self).repository.tasks@),
            final(self).scheduler.workers == old(self).scheduler.workers,
            final(self).scheduler.cancellations == old(self).scheduler.cancellations,
            final(self).scheduler.leases == old(self).scheduler.leases,
            reply.audit@ == audit_of(context, "invoke_task"@, reply.outcome is Ok),
            !context.authorized ==> reply.outcome == Err::<(), ErrorKind>(
                ErrorKind::PermissionDenied,
            ) && final(self).repository.tasks == old(self).repository.tasks,
            context.authorized ==> task_rpc(
                old(self).repository.tasks@,
                final(self).repository.tasks@,
                *id,
                TaskEventView::Invoke { caller: context.user@ },
                reply.outcome,
            ),
            reply.outcome is Err ==> final(self).scheduler.queue == old(self).scheduler.queue,
            reply.outcome is Ok ==> final(self).repository.task(*id).status == TaskStatus::Staged
                && final(self).scheduler.queue@ == if old(self).scheduler.queue@.contains(*id) {
                old(self).scheduler.queue@
            } else {
                old(self).scheduler.queue@.push(*id)
            },
    {
        if !context.authorized {
            return reply(context, "invoke_task", Err(ErrorKind::PermissionDenied));
        }
        let event = TaskEvent::Invoke { caller: context.user.clone() };
        match self.repository.transact(id, &event) {
            Err(error) => reply(context, "invoke_task", Err(error)),
            Ok(()) => {
                let published = self.scheduler.publish(&self.repository, id);
                assert(published is Ok);
                reply(context, "invoke_task", Ok(()))
            },
        }
    }

    /// Cancels the task `id` for its creator. A task that has not been
    /// staged is canceled at once; for a staged or running task the
    /// cancellation is recorded with the scheduler, which cancels a task
    /// that still waits at once and a running one at the next heartbeat of
    /// its worker. A task in a terminal state stays as it is.
    pub fn cancel_task(&mut self, context: &RequestContext, id: &ExternalID) -> (reply: Reply<()>)
        requires
            old(self).repository.wf(),
        ensures
            final(self).repository.wf(),
            final(self).repository.same_but_tasks(&old(self).repository),
            advanced(old(self).repository.tasks@, final(self).repository.tasks@),
            reply.audit@ == audit_of(context, "cancel_task"@, reply.outcome is Ok),
            cancel_rpc(old(self), final(self), context, *id, reply.outcome),
    {
        if !context.authorized {
            return reply(context, "cancel_task", Err(ErrorKind::PermissionDenied));
        }
        let task = match self.repository.get_task(id) {
            Err(error) => {
                return reply(context, "cancel_task", Err(error));
            },
            Ok(found) => found.0,
        };
        if task.is_terminal() {
            return reply(context, "cancel_task", Ok(()));
        }
        if !(task.creator == context.user) {
            return reply(context, "cancel_task", Err(ErrorKind::PermissionDenied));
        }
        if task.status == TaskStatus::Staged || task.status == TaskStatus::Running {
            let outcome = self.scheduler.cancel(&mut self.repository, id);
            reply(context, "cancel_task", outcome)
        } else {
            let event = TaskEvent::Cancel { caller: context.user.clone() };
            let outcome = self.repository.transact(id, &event);
            reply(context, "cancel_task", outcome)
        }
    }

    /// Reads the task `id`.
    pub fn get_task(&self, context: &RequestContext, id: &ExternalID) -> (found: Result<
        Task,
        ErrorKind,
    >)
        ensures
            !context.authorized ==> found == Err::<Task, ErrorKind>(ErrorKind::PermissionDenied),
            context.authorized && id.kind != IdKind::Task ==> found == Err::<Task, ErrorKind>(
                ErrorKind::InvalidArgument,
            ),
            context.authorized && id.kind == IdKind::Task && !self.repository.has_task(*id)
                ==> found == Err::<Task, ErrorKind>(ErrorKind::NotFound),
            context.authorized && id.kind == IdKind::Task && self.repository.has_task(*id)
                ==> found is Ok && found.unwrap()@ == self.repository.task(*id),
    {
        if !context.authorized {
            return Err(ErrorKind::PermissionDenied);
        }
        match self.repository.get_task(id) {
            Err(error) => Err(error),
            Ok(found) => Ok(found.0),
        }
    }

    /// Deletes the function `id`. A function that a task which has not
    /// reached a terminal state runs is not deleted.
    pub fn delete_function(&mut self, context: &RequestContext, id: &ExternalID) -> (reply: Reply<
        (),
    >)
        requires
            old(self).repository.wf(),
        ensures
            final(self).repository.wf(),
            final(self).scheduler == old(self).scheduler,
            final(self).repository.tasks == old(self).repository.tasks,
            final(self).repository.users == old(self).repository.users,
            final(self).repository.inputs == old(self).repository.inputs,
            final(self).repository.outputs == old(self).repository.outputs,
            reply.audit@ == audit_of(context, "delete_function"@, reply.outcome is Ok),
            match delete_refusal(&old(self).repository, context, *id) {
                Some(error) => reply.outcome == Err::<(), ErrorKind>(error)
                    && final(self).repository.functions == old(self).repository.functions,
                None => reply.outcome is Ok
                    && final(self).repository.functions@ == old(self).repository.functions@.remove(*id),
            },
    {
        if !context.authorized {
            return reply(context, "delete_function", Err(ErrorKind::PermissionDenied));
        }
        if self.repository.get_function(id).is_none() {
            return reply(context, "delete_function", Err(ErrorKind::NotFound));
        }
        if self.repository.function_in_use(id) {
            return reply(context, "delete_function", Err(ErrorKind::InvalidTaskState));
        }
        let _ = self.repository.remove_function(id);
        reply(context, "delete_function", Ok(()))
    }

    /// Registers the function that `spec` describes under the identifier
    /// `id`, owned by the caller.
    pub fn register_function_with(
        &mut self,
        context: &RequestContext,
        id: ExternalID,
        spec: FunctionSpec,
    ) -> (reply: Reply<ExternalID>)
        requires
            old(self).repository.wf(),
        ensures
            final(self).repository.wf(),
            final(self).scheduler == old(self).scheduler,
            final(self).repository.tasks == old(self).repository.tasks,
            final(self).repository.users == old(self).repository.users,
            final(self).repository.inputs == old(self).repository.inputs,
            final(self).repository.outputs == old(self).repository.outputs,
            reply.audit@ == audit_of(context, "register_function"@, reply.outcome is Ok),
            match store_refusal(
                context,
                old(self).repository.functions@,
                id,
                IdKind::Function,
            ) {
                Some(error) => reply.outcome == Err::<ExternalID, ErrorKind>(error)
                    && final(self).repository.functions == old(self).repository.functions,
                None => reply.outcome == Ok::<ExternalID, ErrorKind>(id) && one_added(
                    old(self).repository.functions@,
                    final(self).repository.functions@,
                    id,
                ) && function_matches(
                    final(self).repository.functions@[id],
                    id,
                    context.user@,
                    spec,
                ),
            },
    {
        if !context.authorized {
            return reply(context, "register_function", Err(ErrorKind::PermissionDenied));
        }
        if id.kind != IdKind::Function {
            return reply(context, "register_function", Err(ErrorKind::InvalidArgument));
        }
        if self.repository.functions.contains_key(&id) {
            return reply(context, "register_function", Err(ErrorKind::Internal));
        }
        let function = Function {
            id,
            name: spec.name,
            description: spec.description,
            executor_type: spec.executor_type,
            payload: spec.payload,
            arguments: spec.arguments,
            inputs: spec.inputs,
            outputs: spec.outputs,
            owner: context.user.clone(),
            public: spec.public,
            usage_quota: spec.usage_quota,
        };
        let _ = self.repository.put_function(function);
        assert(self.repository.functions@.dom() =~= old(self).repository.functions@.dom().insert(
            id,
        ));
        reply(context, "register_function", Ok(id))
    }

    /// Registers the function that `spec` describes under a fresh
    /// identifier, owned by the caller.
    pub fn register_function(&mut self, context: &RequestContext, spec: FunctionSpec) -> (reply:
        Reply<ExternalID>)
        requires
            old(self).repository.wf(),
        ensures
            final(self).repository.wf(),
            final(self).scheduler == old(self).scheduler,
            final(self).repository.tasks == old(self).repository.tasks,
            reply.audit@ == audit_of(context, "register_function"@, reply.outcome is Ok),
            final(self).repository.users == old(self).repository.users,
            final(self).repository.inputs == old(self).repository.inputs,
            final(self).repository.outputs == old(self).repository.outputs,
            context.authorized ==> reply.outcome is Ok || reply.outcome == Err::<
                ExternalID,
                ErrorKind,
            >(ErrorKind::Internal),
            !context.authorized ==> reply.outcome == Err::<ExternalID, ErrorKind>(
                ErrorKind::PermissionDenied,
            ),
            reply.outcome is Err
                ==> final(self).repository.functions == old(self).repository.functions,
            reply.outcome matches Ok(id) ==> id.kind == IdKind::Function && one_added(
                old(self).repository.functions@,
                final(self).repository.functions@,
                id,
            ) && function_matches(final(self).repository.functions@[id], id, context.user@, spec),
    {
        let id = ExternalID::mint(IdKind::Function);
        self.register_function_with(context, id, spec)
    }

    /// Replaces what is on record of the function `id` by what `spec`
    /// describes. The owner stays.
    pub fn update_function(&mut self, context: &RequestContext, id: &ExternalID, spec: FunctionSpec) -> (reply:
        Reply<()>)
        requires
            old(self).repository.wf(),
        ensures
            final(self).repository.wf(),
            final(self).scheduler == old(self).scheduler,
            final(self).repository.tasks == old(self).repository.tasks,
            final(self).repository.users == old(self).repository.users,
            final(self).repository.inputs == old(self).repository.inputs,
            final(self).repository.outputs == old(self).repository.outputs,
            reply.audit@ == audit_of(context, "update_function"@, reply.outcome is Ok),
            !context.authorized ==> reply.outcome == Err::<(), ErrorKind>(
                ErrorKind::PermissionDenied,
            ),
            context.authorized && !old(self).repository.functions@.contains_key(*id)
                ==> reply.outcome == Err::<(), ErrorKind>(ErrorKind::NotFound),
            reply.outcome is Err
                ==> final(self).repository.functions == old(self).repository.functions,
            context.authorized && old(self).repository.functions@.contains_key(*id)
                ==> reply.outcome is Ok
                    && final(self).repository.functions@.dom() == old(self).repository.functions@.dom()
                    && function_matches(
                final(self).repository.functions@[*id],
                *id,
                old(self).repository.functions@[*id].owner@,
                spec,
            ) && forall|other: ExternalID|
                old(self).repository.functions@.contains_key(other) && other != *id
                    ==> #[trigger] final(self).repository.functions@[other] == old(self).repository.functions@[other],
    {
        if !context.authorized {
            return reply(context, "update_function", Err(ErrorKind::PermissionDenied));
        }
        let owner = match self.repository.get_function(id) {
            None => {
                return reply(context, "update_function", Err(ErrorKind::NotFound));
            },
            Some(function) => function.owner.clone(),
        };
        let function = Function {
            id: *id,
            name: spec.name,
            description: spec.description,
            executor_type: spec.executor_type,
            payload: spec.payload,
            arguments: spec.arguments,
            inputs: spec.inputs,
            outputs: spec.outputs,
            owner,
            public: spec.public,
            usage_quota: spec.usage_quota,
        };
        let _ = self.repository.put_function(function);
        assert(self.repository.functions@.dom() =~= old(self).repository.functions@.dom());
        reply(context, "update_function", Ok(()))
    }

    /// The function `id`.
    pub fn get_function(&self, context: &RequestContext, id: &ExternalID) -> (found: Result<
        &Function,
        ErrorKind,
    >)
        ensures
            !context.authorized ==> found == Err::<&Function, ErrorKind>(
                ErrorKind::PermissionDenied,
            ),
            context.authorized && !self.repository.functions@.contains_key(*id) ==> found == Err::<
                &Function,
                ErrorKind,
            >(ErrorKind::NotFound),
            context.authorized && self.repository.functions@.contains_key(*id) ==> found == Ok::<
                &Function,
                ErrorKind,
            >(&self.repository.functions@[*id]),
    {
        if !context.authorized {
            return Err(ErrorKind::PermissionDenied);
        }
        match self.repository.get_function(id) {
            None => Err(ErrorKind::NotFound),
            Some(function) => Ok(function),
        }
    }

    /// The functions that the caller may see: the public ones and its own.
    pub fn list_functions(&self, context: &RequestContext) -> (listed: Result<
        Vec<ExternalID>,
        ErrorKind,
    >)
        requires
            self.repository.wf(),
        ensures
            !context.authorized ==> listed == Err::<Vec<ExternalID>, ErrorKind>(
                ErrorKind::PermissionDenied,
            ),
            context.authorized ==> listed is Ok && forall|id: ExternalID|
                listed.unwrap()@.contains(id) <==> self.repository.functions@.contains_key(id)
                    && listed_for(self.repository.functions@[id], context.user@),
            context.authorized ==> listed.unwrap()@.no_duplicates(),
    {
        if !context.authorized {
            return Err(ErrorKind::PermissionDenied);
        }
        let functions = &self.repository.functions;
        let n = functions.len();
        let mut listed: Vec<ExternalID> = Vec::new();
        let mut i: usize = 0;
        while i < n
            invariant
                i <= n,
                n == functions.entries().len(),
                functions.listed(),
                listed@.no_duplicates(),
                forall|id: ExternalID|
                    listed@.contains(id) <==> exists|j: int|
                        0 <= j < i && (#[trigger] functions.entries()[j]).0 == id && listed_for(
                            functions.entries()[j].1,
                            context.user@,
                        ),
            decreases n - i,
        {
            let ghost before = listed@;
            let function = functions.value_at(i);
            if function.public || function.owner == context.user {
                proof {
                    let id = functions.entries()[i as int].0;
                    if before.contains(id) {
                        let j = choose|j: int|
                            0 <= j < i && (#[trigger] functions.entries()[j]).0 == id
                                && listed_for(functions.entries()[j].1, context.user@);
                        assert(functions.entries()[j].0@ == functions.entries()[i as int].0@);
                    }
                }
                listed.push(*functions.name_at(i));
                assert(listed@ =~= before.push(functions.entries()[i as int].0));
            }
            proof {
                assert forall|id: ExternalID|
                    listed@.contains(id) <==> exists|j: int|
                        0 <= j < i + 1 && (#[trigger] functions.entries()[j]).0 == id
                            && listed_for(functions.entries()[j].1, context.user@) by {
                    if listed@.contains(id) {
                        let a = choose|a: int| 0 <= a < listed@.len() && listed@[a] == id;
                        if a < before.len() {
                            assert(before[a] == id);
                            assert(before.contains(id));
                            let j = choose|j: int|
                                0 <= j < i && (#[trigger] functions.entries()[j]).0 == id
                                    && listed_for(functions.entries()[j].1, context.user@);
                            assert(0 <= j < i + 1 && functions.entries()[j].0 == id);
                        } else {
                            assert(0 <= i < i + 1 && functions.entries()[i as int].0 == id);
                        }
                    }
                    if exists|j: int|
                        0 <= j < i + 1 && (#[trigger] functions.entries()[j]).0 == id
                            && listed_for(functions.entries()[j].1, context.user@) {
                        let j = choose|j: int|
                            0 <= j < i + 1 && (#[trigger] functions.entries()[j]).0 == id
                                && listed_for(functions.entries()[j].1, context.user@);
                        if j < i {
                            assert(before.contains(id));
                            let a = choose|a: int| 0 <= a < before.len() && before[a] == id;
                            assert(listed@[a] == id);
                        } else {
                            assert(listed@[listed@.len() - 1] == id);
                        }
                    }
                }
            }
            i += 1;
        }
        proof {
            assert forall|id: ExternalID|
                listed@.contains(id) <==> functions@.contains_key(id) && listed_for(
                    functions@[id],
                    context.user@,
                ) by {
                if listed@.contains(id) {
                    let j = choose|j: int|
                        0 <= j < n && (#[trigger] functions.entries()[j]).0 == id && listed_for(
                            functions.entries()[j].1,
                            context.user@,
                        );
                    assert(functions@.contains_key(functions.entries()[j].0@));
                    assert(functions@[functions.entries()[j].0@] == functions.entries()[j].1);
                }
                if functions@.contains_key(id) && listed_for(functions@[id], context.user@) {
                    let j = choose|j: int|
                        0 <= j < functions.entries().len() && (#[trigger] functions.entries()[j]).0@
                            == id;
                    assert(functions@[functions.entries()[j].0@] == functions.entries()[j].1);
                }
            }
        }
        Ok(listed)
    }

    /// Registers an input file under the identifier `id`, owned by the
    /// caller alone.
    pub fn register_input_file_with(
        &mut self,
        context: &RequestContext,
        id: ExternalID,
        url: String,
        cmac: FileAuthTag,
        crypto: FileCrypto,
    ) -> (reply: Reply<ExternalID>)
        requires
            old(self).repository.wf(),
        ensures
            final(self).repository.wf(),
            final(self).scheduler == old(self).scheduler,
            final(self).repository.tasks == old(self).repository.tasks,
            final(self).repository.users == old(self).repository.users,
            final(self).repository.functions == old(self).repository.functions,
            final(self).repository.outputs == old(self).repository.outputs,
            reply.audit@ == audit_of(context, "register_input_file"@, reply.outcome is Ok),
            match store_refusal(context, old(self).repository.inputs@, id, IdKind::Input) {
                Some(error) => reply.outcome == Err::<ExternalID, ErrorKind>(error)
                    && final(self).repository.inputs == old(self).repository.inputs,
                None => reply.outcome == Ok::<ExternalID, ErrorKind>(id) && one_added(
                    old(self).repository.inputs@,
                    final(self).repository.inputs@,
                    id,
                ) && input_is(
                    final(self).repository.inputs@[id],
                    id,
                    Set::<Seq<char>>::empty().insert(context.user@),
                    url@,
                    crypto,
                    cmac,
                    None,
                ),
            },
    {
        if !context.authorized {
            return reply(context, "register_input_file", Err(ErrorKind::PermissionDenied));
        }
        if id.kind != IdKind::Input {
            return reply(context, "register_input_file", Err(ErrorKind::InvalidArgument));
        }
        if self.repository.inputs.contains_key(&id) {
            return reply(context, "register_input_file", Err(ErrorKind::Internal));
        }
        let file = InputFile { id, owner: only(&context.user), url, crypto, cmac, hash: None };
        let _ = self.repository.put_input(file);
        assert(self.repository.inputs@.dom() =~= old(self).repository.inputs@.dom().insert(id));
        reply(context, "register_input_file", Ok(id))
    }

    /// Registers an input file under a fresh identifier, owned by the caller
    /// alone.
    pub fn register_input_file(
        &mut self,
        context: &RequestContext,
        url: String,
        cmac: FileAuthTag,
        crypto: FileCrypto,
    ) -> (reply: Reply<ExternalID>)
        requires
            old(self).repository.wf(),
        ensures
            final(self).repository.wf(),
            final(self).scheduler == old(self).scheduler,
            final(self).repository.tasks == old(self).repository.tasks,
            final(self).repository.functions == old(self).repository.functions,
            final(self).repository.outputs == old(self).repository.outputs,
            reply.audit@ == audit_of(context, "register_input_file"@, reply.outcome is Ok),
            final(self).repository.users == old(self).repository.users,
            context.authorized ==> reply.outcome is Ok || reply.outcome == Err::<
                ExternalID,
                ErrorKind,
            >(ErrorKind::Internal),
            !context.authorized ==> reply.outcome == Err::<ExternalID, ErrorKind>(
                ErrorKind::PermissionDenied,
            ),
            reply.outcome is Err ==> final(self).repository.inputs == old(self).repository.inputs,
            reply.outcome matches Ok(id) ==> id.kind == IdKind::Input && one_added(
                old(self).repository.inputs@,
                final(self).repository.inputs@,
                id,
            ) && input_is(
                final(self).repository.inputs@[id],
                id,
                Set::<Seq<char>>::empty().insert(context.user@),
                url@,
                crypto,
                cmac,
                None,
            ),
    {
        let id = ExternalID::mint(IdKind::Input);
        self.register_input_file_with(context, id, url, cmac, crypto)
    }

    /// Registers, under the identifier `id`, the input file `current` at a
    /// new place. The record under `current` stays as it is.
    pub fn update_input_file_with(
        &mut self,
        context: &RequestContext,
        id: ExternalID,
        current: &ExternalID,
        url: String,
    ) -> (reply: Reply<ExternalID>)
        requires
            old(self).repository.wf(),
        ensures
            final(self).repository.wf(),
            final(self).scheduler == old(self).scheduler,
            final(self).repository.tasks == old(self).repository.tasks,
            final(self).repository.users == old(self).repository.users,
            final(self).repository.functions == old(self).repository.functions,
            final(self).repository.outputs == old(self).repository.outputs,
            reply.audit@ == audit_of(context, "update_input_file"@, reply.outcome is Ok),
            reply.outcome is Err ==> final(self).repository.inputs == old(self).repository.inputs,
            match store_refusal(context, old(self).repository.inputs@, id, IdKind::Input) {
                Some(error) => reply.outcome == Err::<ExternalID, ErrorKind>(error),
                None => if !old(self).repository.inputs@.contains_key(*current) {
                    reply.outcome == Err::<ExternalID, ErrorKind>(ErrorKind::NotFound)
                } else {
                    reply.outcome == Ok::<ExternalID, ErrorKind>(id) && id != *current && one_added(
                        old(self).repository.inputs@,
                        final(self).repository.inputs@,
                        id,
                    ) && input_is(
                        final(self).repository.inputs@[id],
                        id,
                        old(self).repository.inputs@[*current].owner@,
                        url@,
                        old(self).repository.inputs@[*current].crypto,
                        old(self).repository.inputs@[*current].cmac,
                        hash_text(old(self).repository.inputs@[*current].hash),
                    )
                },
            },
    {
        if !context.authorized {
            return reply(context, "update_input_file", Err(ErrorKind::PermissionDenied));
        }
        if id.kind != IdKind::Input {
            return reply(context, "update_input_file", Err(ErrorKind::InvalidArgument));
        }
        if self.repository.inputs.contains_key(&id) {
            return reply(context, "update_input_file", Err(ErrorKind::Internal));
        }
        let file = match self.repository.get_input(current) {
            None => {
                return reply(context, "update_input_file", Err(ErrorKind::NotFound));
            },
            Some(record) => InputFile {
                id,
                owner: record.owner.clone(),
                url,
                crypto: record.crypto,
                cmac: record.cmac,
                hash: clone_hash(&record.hash),
            },
        };
        let _ = self.repository.put_input(file);
        assert(self.repository.inputs@.dom() =~= old(self).repository.inputs@.dom().insert(id));
        reply(context, "update_input_file", Ok(id))
    }

    /// Registers the input file `current` at a new place, under a fresh
    /// identifier. The record under `current` stays as it is.
    pub fn update_input_file(&mut self, context: &RequestContext, current: &ExternalID, url: String) -> (reply:
        Reply<ExternalID>)
        requires
            old(self).repository.wf(),
        ensures
            final(self).repository.wf(),
            final(self).scheduler == old(self).scheduler,
            final(self).repository.tasks == old(self).repository.tasks,
            reply.audit@ == audit_of(context, "update_input_file"@, reply.outcome is Ok),
            final(self).repository.users == old(self).repository.users,
            final(self).repository.functions == old(self).repository.functions,
            final(self).repository.outputs == old(self).repository.outputs,
            context.authorized && !old(self).repository.inputs@.contains_key(*current)
                ==> reply.outcome == Err::<ExternalID, ErrorKind>(ErrorKind::NotFound)
                || reply.outcome == Err::<ExternalID, ErrorKind>(ErrorKind::Internal),
            context.authorized && old(self).repository.inputs@.contains_key(*current)
                ==> reply.outcome is Ok || reply.outcome == Err::<ExternalID, ErrorKind>(
                ErrorKind::Internal,
            ),
            !context.authorized ==> reply.outcome == Err::<ExternalID, ErrorKind>(
                ErrorKind::PermissionDenied,
            ),
            reply.outcome is Err ==> final(self).repository.inputs == old(self).repository.inputs,
            reply.outcome matches Ok(id) ==> id.kind == IdKind::Input && id != *current
                && one_added(old(self).repository.inputs@, final(self).repository.inputs@, id)
                && input_is(
                final(self).repository.inputs@[id],
                id,
                old(self).repository.inputs@[*current].owner@,
                url@,
                old(self).repository.inputs@[*current].crypto,
                old(self).repository.inputs@[*current].cmac,
                hash_text(old(self).repository.inputs@[*current].hash),
            ),
    {
        let id = ExternalID::mint(IdKind::Input);
        self.update_input_file_with(context, id, current, url)
    }

    /// Registers an output file under the identifier `id`, owned by the
    /// users of `owners`, not yet written.
    pub fn register_output_with(
        &mut self,
        context: &RequestContext,
        message: &str,
        id: ExternalID,
        owners: NameSet,
        url: String,
        crypto: FileCrypto,
    ) -> (reply: Reply<ExternalID>)
        requires
            old(self).repository.wf(),
        ensures
            final(self).repository.wf(),
            final(self).scheduler == old(self).scheduler,
            final(self).repository.tasks == old(self).repository.tasks,
            final(self).repository.users == old(self).repository.users,
            final(self).repository.functions == old(self).repository.functions,
            final(self).repository.inputs == old(self).repository.inputs,
            reply.audit@ == audit_of(context, message@, reply.outcome is Ok),
            match store_refusal(context, old(self).repository.outputs@, id, IdKind::Output) {
                Some(error) => reply.outcome == Err::<ExternalID, ErrorKind>(error)
                    && final(self).repository.outputs == old(self).repository.outputs,
                None => reply.outcome == Ok::<ExternalID, ErrorKind>(id) && one_added(
                    old(self).repository.outputs@,
                    final(self).repository.outputs@,
                    id,
                ) && output_is(
                    final(self).repository.outputs@[id],
                    id,
                    owners@,
                    url@,
                    crypto,
                    None,
                    None,
                ),
            },
    {
        if !context.authorized {
            return reply(context, message, Err(ErrorKind::PermissionDenied));
        }
        if id.kind != IdKind::Output {
            return reply(context, message, Err(ErrorKind::InvalidArgument));
        }
        if self.repository.outputs.contains_key(&id) {
            return reply(context, message, Err(ErrorKind::Internal));
        }
        let file = OutputFile { id, owner: owners, url, crypto, cmac: None, hash: None };
        let _ = self.repository.put_output(file);
        assert(self.repository.outputs@.dom() =~= old(self).repository.outputs@.dom().insert(id));
        reply(context, message, Ok(id))
    }

    /// Registers an output file under a fresh identifier, owned by the
    /// caller alone.
    pub fn register_output_file(&mut self, context: &RequestContext, url: String, crypto: FileCrypto) -> (reply:
        Reply<ExternalID>)
        requires
            old(self).repository.wf(),
        ensures
            final(self).repository.wf(),
            final(self).scheduler == old(self).scheduler,
            final(self).repository.tasks == old(self).repository.tasks,
            final(self).repository.inputs == old(self).repository.inputs,
            reply.audit@ == audit_of(context, "register_output_file"@, reply.outcome is Ok),
            final(self).repository.users == old(self).repository.users,
            final(self).repository.functions == old(self).repository.functions,
            context.authorized ==> reply.outcome is Ok || reply.outcome == Err::<
                ExternalID,
                ErrorKind,
            >(ErrorKind::Internal),
            !context.authorized ==> reply.outcome == Err::<ExternalID, ErrorKind>(
                ErrorKind::PermissionDenied,
            ),
            reply.outcome is Err ==> final(self).repository.outputs == old(self).repository.outputs,
            reply.outcome matches Ok(id) ==> id.kind == IdKind::Output && one_added(
                old(self).repository.outputs@,
                final(self).repository.outputs@,
                id,
            ) && output_is(
                final(self).repository.outputs@[id],
                id,
                Set::<Seq<char>>::empty().insert(context.user@),
                url@,
                crypto,
                None,
                None,
            ),
    {
        let id = ExternalID::mint(IdKind::Output);
        let owners = only(&context.user);
        self.register_output_with(context, "register_output_file", id, owners, url, crypto)
    }

    /// Registers a fusion output under a fresh output identifier: an output
    /// file owned by all the users of `owners`.
    pub fn register_fusion_output(
        &mut self,
        context: &RequestContext,
        owners: Vec<String>,
        url: String,
        crypto: FileCrypto,
    ) -> (reply: Reply<ExternalID>)
        requires
            old(self).repository.wf(),
        ensures
            final(self).repository.wf(),
            final(self).scheduler == old(self).scheduler,
            final(self).repository.tasks == old(self).repository.tasks,
            final(self).repository.inputs == old(self).repository.inputs,
            reply.audit@ == audit_of(context, "register_fusion_output"@, reply.outcome is Ok),
            final(self).repository.users == old(self).repository.users,
            final(self).repository.functions == old(self).repository.functions,
            context.authorized ==> reply.outcome is Ok || reply.outcome == Err::<
                ExternalID,
                ErrorKind,
            >(ErrorKind::Internal),
            !context.authorized ==> reply.outcome == Err::<ExternalID, ErrorKind>(
                ErrorKind::PermissionDenied,
            ),
            reply.outcome is Err ==> final(self).repository.outputs == old(self).repository.outputs,
            reply.outcome matches Ok(id) ==> id.kind == IdKind::Output && one_added(
                old(self).repository.outputs@,
                final(self).repository.outputs@,
                id,
            ) && output_is(
                final(self).repository.outputs@[id],
                id,
                names_of(owners@),
                url@,
                crypto,
                None,
                None,
            ),
    {
        let id = ExternalID::mint(IdKind::Output);
        let owners = NameSet::from_vec(owners);
        self.register_output_with(context, "register_fusion_output", id, owners, url, crypto)
    }

    /// Registers the written output file `output` as an input file under
    /// the identifier `id`, for one of its owners.
    pub fn register_input_from_output_with(
        &mut self,
        context: &RequestContext,
        id: ExternalID,
        output: &ExternalID,
    ) -> (reply: Reply<ExternalID>)
        requires
            old(self).repository.wf(),
        ensures
            final(self).repository.wf(),
            final(self).scheduler == old(self).scheduler,
            final(self).repository.tasks == old(self).repository.tasks,
            final(self).repository.users == old(self).repository.users,
            final(self).repository.functions == old(self).repository.functions,
            final(self).repository.outputs == old(self).repository.outputs,
            reply.audit@ == audit_of(context, "register_input_from_output"@, reply.outcome is Ok),
            match reuse_refusal(&old(self).repository, context, id, *output) {
                Some(error) => reply.outcome == Err::<ExternalID, ErrorKind>(error)
                    && final(self).repository.inputs == old(self).repository.inputs,
                None => reply.outcome == Ok::<ExternalID, ErrorKind>(id) && one_added(
                    old(self).repository.inputs@,
                    final(self).repository.inputs@,
                    id,
                ) && input_is(
                    final(self).repository.inputs@[id],
                    id,
                    old(self).repository.outputs@[*output].owner@,
                    old(self).repository.outputs@[*output].url@,
                    old(self).repository.outputs@[*output].crypto,
                    old(self).repository.outputs@[*output].cmac.unwrap(),
                    hash_text(old(self).repository.outputs@[*output].hash),
                ),
            },
    {
        let message = "register_input_from_output";
        if !context.authorized {
            return reply(context, message, Err(ErrorKind::PermissionDenied));
        }
        if id.kind != IdKind::Input {
            return reply(context, message, Err(ErrorKind::InvalidArgument));
        }
        if self.repository.inputs.contains_key(&id) {
            return reply(context, message, Err(ErrorKind::Internal));
        }
        let made: Result<InputFile, ErrorKind> = match self.repository.get_output(output) {
            None => Err(ErrorKind::NotFound),
            Some(record) => {
                if !record.owner.contains(&context.user) {
                    Err(ErrorKind::PermissionDenied)
                } else {
                    match record.cmac {
                        None => Err(ErrorKind::InvalidArgument),
                        Some(cmac) => Ok(
                            InputFile {
                                id,
                                owner: record.owner.clone(),
                                url: record.url.clone(),
                                crypto: record.crypto,
                                cmac,
                                hash: clone_hash(&record.hash),
                            },
                        ),
                    }
                }
            },
        };
        match made {
            Err(error) => reply(context, message, Err(error)),
            Ok(file) => {
                let _ = self.repository.put_input(file);
                assert(self.repository.inputs@.dom() =~= old(self).repository.inputs@.dom().insert(
                    id,
                ));
                reply(context, message, Ok(id))
            },
        }
    }

    /// Registers the written output file `output` as an input file under a
    /// fresh identifier, for one of its owners.
    pub fn register_input_from_output(&mut self, context: &RequestContext, output: &ExternalID) -> (reply:
        Reply<ExternalID>)
        requires
            old(self).repository.wf(),
        ensures
            final(self).repository.wf(),
            final(self).scheduler == old(self).scheduler,
            final(self).repository.tasks == old(self).repository.tasks,
            final(self).repository.outputs == old(self).repository.outputs,
            reply.audit@ == audit_of(context, "register_input_from_output"@, reply.outcome is Ok),
            final(self).repository.users == old(self).repository.users,
            final(self).repository.functions == old(self).repository.functions,
            context.authorized ==> match reuse_need(&old(self).repository, context, *output) {
                Some(error) => reply.outcome == Err::<ExternalID, ErrorKind>(error)
                    || reply.outcome == Err::<ExternalID, ErrorKind>(ErrorKind::Internal),
                None => reply.outcome is Ok || reply.outcome == Err::<ExternalID, ErrorKind>(
                    ErrorKind::Internal,
                ),
            },
            !context.authorized ==> reply.outcome == Err::<ExternalID, ErrorKind>(
                ErrorKind::PermissionDenied,
            ),
            reply.outcome is Err ==> final(self).repository.inputs == old(self).repository.inputs,
            reply.outcome matches Ok(id) ==> id.kind == IdKind::Input
                && old(self).repository.outputs@.contains_key(*output)
                && old(self).repository.outputs@[*output].owner@.contains(context.user@)
                && one_added(
                old(self).repository.inputs@,
                final(self).repository.inputs@,
                id,
            ) && input_is(
                final(self).repository.inputs@[id],
                id,
                old(self).repository.outputs@[*output].owner@,
                old(self).repository.outputs@[*output].url@,
                old(self).repository.outputs@[*output].crypto,
                old(self).repository.outputs@[*output].cmac.unwrap(),
                hash_text(old(self).repository.outputs@[*output].hash),
            ),
    {
        let id = ExternalID::mint(IdKind::Input);
        self.register_input_from_output_with(context, id, output)
    }

    /// Takes the result of the task `id` from the worker who calls, and
    /// records it as the scheduler does.
    pub fn update_task_result(
        &mut self,
        context: &RequestContext,
        id: &ExternalID,
        outcome: TaskOutcome,
    ) -> (reply: Reply<()>)
        requires
            old(self).repository.wf(),
        ensures
            final(self).repository.wf(),
            advanced(old(self).repository.tasks@, final(self).repository.tasks@),
            final(self).repository.users == old(self).repository.users,
            final(self).repository.functions == old(self).repository.functions,
            final(self).repository.inputs == old(self).repository.inputs,
            final(self).scheduler.queue == old(self).scheduler.queue,
            final(self).scheduler.cancellations == old(self).scheduler.cancellations,
            reply.audit@ == audit_of(context, "update_task_result"@, reply.outcome is Ok),
            !context.authorized ==> reply.outcome == Err::<(), ErrorKind>(
                ErrorKind::PermissionDenied,
            ) && final(self).repository.tasks == old(self).repository.tasks && final(self).repository.outputs == old(self).repository.outputs && final(self).scheduler == old(self).scheduler,
            context.authorized ==> match applied(
                old(self).repository.tasks@,
                *id,
                TaskEventView::Complete { worker: context.user@, outcome: outcome@ },
            ) {
                Err(error) => reply.outcome == Err::<(), ErrorKind>(error)
                    && final(self).repository.tasks == old(self).repository.tasks
                    && final(self).repository.outputs == old(self).repository.outputs
                    && final(self).scheduler.workers == old(self).scheduler.workers
                    && final(self).scheduler.leases == old(self).scheduler.leases,
                Ok(finished) => reply.outcome is Ok && rewritten(
                    old(self).repository.tasks@,
                    final(self).repository.tasks@,
                    *id,
                    finished,
                ) && tags_persisted(
                    old(self).repository.outputs@,
                    final(self).repository.outputs@,
                    finished.assigned_outputs,
                    tags_of(outcome@),
                ) && final(self).scheduler.leases@ == old(self).scheduler.leases@.remove(*id)
                    && final(self).scheduler.workers@ == released(
                    old(self).scheduler.workers@,
                    context.user@,
                ),
            },
    {
        if !context.authorized {
            return reply(context, "update_task_result", Err(ErrorKind::PermissionDenied));
        }
        let done = self.scheduler.update_task_result(
            &mut self.repository,
            &context.user,
            id,
            outcome,
        );
        reply(context, "update_task_result", done)
    }

    /// Hands the worker who calls the task at the head of the ready queue, as
    /// the scheduler does at `now`. A caller who is not authorized is
    /// refused, and nothing changes.
    pub fn pull_task(&mut self, context: &RequestContext, now: u64) -> (reply: Reply<PullOutcome>)
        requires
            old(self).repository.wf(),
        ensures
            final(self).repository.wf(),
            final(self).repository.same_but_tasks(&old(self).repository),
            advanced(old(self).repository.tasks@, final(self).repository.tasks@),
            final(self).scheduler.cancellations == old(self).scheduler.cancellations,
            reply.audit@ == audit_of(context, "pull_task"@, reply.outcome is Ok),
            !context.authorized ==> reply.outcome == Err::<PullOutcome, ErrorKind>(
                ErrorKind::PermissionDenied,
            ) && final(self).repository.tasks == old(self).repository.tasks && final(self).scheduler
                == old(self).scheduler,
            context.authorized ==> reply.outcome is Ok,
            context.authorized && old(self).scheduler.queue@.len() == 0 ==> reply.outcome.unwrap()
                is Empty && final(self).repository.tasks == old(self).repository.tasks
                && final(self).scheduler.queue == old(self).scheduler.queue
                && final(self).scheduler.workers == old(self).scheduler.workers
                && final(self).scheduler.leases == old(self).scheduler.leases,
            context.authorized && old(self).scheduler.queue@.len() > 0 ==> final(self).scheduler.queue@ == old(self).scheduler.queue@.drop_first() && pull_effect(
                &old(self).scheduler,
                &old(self).repository,
                &final(self).scheduler,
                &final(self).repository,
                old(self).scheduler.queue@[0],
                context.user@,
                now,
                reply.outcome.unwrap(),
            ),
    {
        if !context.authorized {
            return reply(context, "pull_task", Err(ErrorKind::PermissionDenied));
        }
        let outcome = self.scheduler.pull_task(&mut self.repository, &context.user, now);
        reply(context, "pull_task", Ok(outcome))
    }

    /// Takes the heartbeat of the worker who calls, as the scheduler does at
    /// `now`, and answers with the command for the worker. A caller who is
    /// not authorized is refused, and nothing changes.
    pub fn heartbeat(&mut self, context: &RequestContext, status: ExecutorStatus, now: u64) -> (reply:
        Reply<ExecutorCommand>)
        requires
            old(self).repository.wf(),
        ensures
            final(self).repository.wf(),
            final(self).repository.same_but_tasks(&old(self).repository),
            advanced(old(self).repository.tasks@, final(self).repository.tasks@),
            final(self).scheduler.queue == old(self).scheduler.queue,
            final(self).scheduler.cancellations == old(self).scheduler.cancellations,
            reply.audit@ == audit_of(context, "heartbeat"@, reply.outcome is Ok),
            !context.authorized ==> reply.outcome == Err::<ExecutorCommand, ErrorKind>(
                ErrorKind::PermissionDenied,
            ) && final(self).repository.tasks == old(self).repository.tasks && final(self).scheduler
                == old(self).scheduler,
            context.authorized ==> reply.outcome is Ok && heartbeat_effect(
                &old(self).scheduler,
                &old(self).repository,
                &final(self).scheduler,
                &final(self).repository,
                context.user@,
                status,
                now,
                reply.outcome.unwrap(),
            ),
    {
        if !context.authorized {
            return reply(context, "heartbeat", Err(ErrorKind::PermissionDenied));
        }
        let command = self.scheduler.heartbeat(&mut self.repository, &context.user, status, now);
        reply(context, "heartbeat", Ok(command))
    }
}

/// Saves the entries that a gateway has gathered. An authorized caller's
/// entries go to the index, each as a document of its own; where the index
/// fails the request fails with `StorageUnavailable`. A caller who is not
/// authorized is refused, and the index is left as it is.
pub fn save_logs(context: &RequestContext, service: &mut LogService, logs: &Vec<Entry>) -> (done:
    Result<(), ErrorKind>)
    ensures
        final(service).field_numbers() == old(service).field_numbers(),
        !context.authorized ==> done == Err::<(), ErrorKind>(ErrorKind::PermissionDenied) && final(service).saved() == old(service).saved() && final(service).unsaved() == old(service).unsaved(),
        context.authorized && done is Err ==> done == Err::<(), ErrorKind>(
            ErrorKind::StorageUnavailable,
        ),
        context.authorized && logs@.len() == 0 ==> done is Ok && final(service).saved() == old(
            service,
        ).saved() && final(service).unsaved() == old(service).unsaved(),
        done is Ok ==> context.authorized && exists|documents: Seq<Map<u32, FieldValue>>|
            #![trigger documents.to_multiset()]
            documents.len() == logs@.len() && (forall|i: int|
                0 <= i < logs@.len() ==> fields_in(
                    #[trigger] documents[i],
                    old(service).field_numbers(),
                ) == fields_of(record_of_log(logs@[i]@))) && final(service).saved().add(
                final(service).unsaved(),
            ) == old(service).saved().add(old(service).unsaved()).add(documents.to_multiset()),
{
    if !context.authorized {
        return Err(ErrorKind::PermissionDenied);
    }
    match service.save_logs(logs) {
        Ok(()) => Ok(()),
        Err(_) => Err(ErrorKind::StorageUnavailable),
    }
}

/// A function is deleted if and only if no task that has not reached a
/// terminal state runs it, where the request is authorized and the function
/// is on record.
pub proof fn lemma_function_deleted_unless_in_use(
    repository: &Repository,
    context: &RequestContext,
    id: ExternalID,
)
    requires
        context.authorized,
        repository.functions@.contains_key(id),
    ensures
        delete_refusal(repository, context, id) is Some <==> in_use(repository.tasks@, id),
        delete_refusal(repository, context, id) is Some <==> exists|task: ExternalID|
            repository.tasks@.contains_key(task)
                && (#[trigger] repository.tasks@[task]).task.function_id
                == id && !is_terminal(repository.tasks@[task].task.status),
{
}

/// No request changes a task that has reached a terminal state: the task is
/// in the table afterwards as it was before, and every event but `Cancel`
/// that is put to it is refused with `InvalidTaskState`, the table left as it
/// was.
pub proof fn lemma_terminal_task_is_final(
    before: Map<ExternalID, TaskRow>,
    after: Map<ExternalID, TaskRow>,
    id: ExternalID,
    event: TaskEventView,
    outcome: Result<(), ErrorKind>,
)
    requires
        task_rpc(before, after, id, event, outcome),
        id.kind == IdKind::Task,
        before.contains_key(id),
        is_terminal(before[id].task.status),
    ensures
        after.contains_key(id),
        after[id].task@ == before[id].task@,
        !(event is Cancel) ==> outcome == Err::<(), ErrorKind>(ErrorKind::InvalidTaskState)
            && after == before,
{
    lemma_terminal_is_final(before[id].task@, event);
}

/// Through any run of requests, each leaving the task table advanced, a task
/// that has reached a terminal state stays what it is.
pub proof fn lemma_terminal_task_never_changes(
    history: Seq<Map<ExternalID, TaskRow>>,
    earlier: int,
    later: int,
    id: ExternalID,
)
    requires
        0 <= earlier <= later < history.len(),
        forall|k: int|
            0 <= k < history.len() - 1 ==> advanced(#[trigger] history[k], history[k + 1]),
        history[earlier].contains_key(id),
        is_terminal(history[earlier][id].task.status),
    ensures
        history[later].contains_key(id),
        history[later][id].task@ == history[earlier][id].task@,
    decreases later - earlier,
{
    if earlier < later {
        lemma_terminal_task_never_changes(history, earlier, later - 1, id);
        assert(advanced(history[later - 1], history[later - 1 + 1]));
    }
}

/// Of every task on record the approvals come from its participants, and a
/// task that is approved, staged or running has the approval of each of
/// them.
pub proof fn lemma_stored_approvals(repository: &Repository, id: ExternalID)
    requires
        repository.wf(),
        repository.has_task(id),
    ensures
        repository.task(id).approved_users.subset_of(repository.task(id).participants),
        repository.task(id).status == TaskStatus::Approved || repository.task(id).status
            == TaskStatus::Staged || repository.task(id).status == TaskStatus::Running
            ==> repository.task(id).participants.subset_of(repository.task(id).approved_users),
{
}

/// A request to approve that succeeds adds the caller, a participant, to the
/// approvals and nothing else, and the task becomes `Approved` with it if and
/// only if every participant has then approved.
pub proof fn lemma_approval_counts(
    before: Map<ExternalID, TaskRow>,
    after: Map<ExternalID, TaskRow>,
    id: ExternalID,
    caller: Seq<char>,
    outcome: Result<(), ErrorKind>,
)
    requires
        task_rpc(before, after, id, TaskEventView::Approve { caller }, outcome),
        outcome is Ok,
    ensures
        before.contains_key(id) && after.contains_key(id),
        before[id].task@.status == TaskStatus::DataAssigned,
        before[id].task@.participants.contains(caller),
        after[id].task@.participants == before[id].task@.participants,
        after[id].task@.approved_users == before[id].task@.approved_users.insert(caller),
        after[id].task@.status == TaskStatus::Approved <==> after[id].task@.participants.subset_of(
            after[id].task@.approved_users,
        ),
        after[id].task@.status == TaskStatus::Approved || after[id].task@.status
            == TaskStatus::DataAssigned,
{
}

/// A request to invoke a task whose participants have not all approved is
/// refused with `InvalidTaskState`, where the task meets the task invariant.
pub proof fn lemma_invoke_wants_every_approval(
    before: Map<ExternalID, TaskRow>,
    id: ExternalID,
    caller: Seq<char>,
)
    requires
        id.kind == IdKind::Task,
        before.contains_key(id),
        task_inv(before[id].task@),
        !before[id].task@.participants.subset_of(before[id].task@.approved_users),
    ensures
        applied(before, id, TaskEventView::Invoke { caller }) == Err::<TaskView, ErrorKind>(
            ErrorKind::InvalidTaskState,
        ),
{
}

} // verus!
