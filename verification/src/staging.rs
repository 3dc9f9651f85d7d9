//! The staged task: the resolved view of a task that is handed to a worker.

use crate::entities::{FileCrypto, InputFile, OutputFile};
use crate::files::FileAuthTag;
use crate::ids::ExternalID;
use crate::lifecycle::clone_texts;
use crate::repository::Repository;
use crate::table::{Key, NameMap};
use crate::task::{texts_view, ExecutorType, Task};
use vstd::prelude::*;

verus! {

/// Where a worker finds a file of its task, and how it is protected.
pub struct StagedFileRef {
    pub url: String,
    pub crypto: FileCrypto,
    pub cmac: Option<FileAuthTag>,
}

/// The model of a `StagedFileRef`.
pub struct StagedFileRefView {
    pub url: Seq<char>,
    pub crypto: FileCrypto,
    pub cmac: Option<FileAuthTag>,
}

impl View for StagedFileRef {
    type V = StagedFileRefView;

    open spec fn view(&self) -> StagedFileRefView {
        StagedFileRefView { url: self.url@, crypto: self.crypto, cmac: self.cmac }
    }
}

/// What a worker needs to run a task: the function's payload and arguments,
/// the executor, and the files of each slot.
pub struct StagedTask {
    pub task_id: ExternalID,
    pub function_payload: Vec<u8>,
    pub resolved_inputs: NameMap<StagedFileRef>,
    pub resolved_outputs: NameMap<StagedFileRef>,
    pub executor: ExecutorType,
    pub arguments: NameMap<String>,
}

/// How an input file is staged.
pub open spec fn staged_input(file: InputFile) -> StagedFileRefView {
    StagedFileRefView { url: file.url@, crypto: file.crypto, cmac: Some(file.cmac) }
}

/// How an output file is staged.
pub open spec fn staged_output(file: OutputFile) -> StagedFileRefView {
    StagedFileRefView { url: file.url@, crypto: file.crypto, cmac: file.cmac }
}

/// Every assigned file is on record.
pub open spec fn all_present<F>(
    assigned: Map<Seq<char>, ExternalID>,
    files: Map<ExternalID, F>,
) -> bool {
    forall|slot: Seq<char>| #[trigger]
        assigned.contains_key(slot) ==> files.contains_key(assigned[slot])
}

/// Whether the function and every assigned file of `task` are on record.
pub open spec fn stageable(repository: &Repository, task: &Task) -> bool {
    &&& repository.functions@.contains_key(task.function_id)
    &&& all_present(task.assigned_inputs@, repository.inputs@)
    &&& all_present(task.assigned_outputs@, repository.outputs@)
}

/// `staged` is the resolved view of `task` over `repository`.
pub open spec fn is_staging_of(staged: &StagedTask, repository: &Repository, task: &Task) -> bool {
    &&& staged.task_id == task.id
    &&& staged.function_payload@ == repository.functions@[task.function_id].payload@
    &&& staged.executor == task.executor
    &&& texts_view(staged.arguments@) == texts_view(task.function_arguments@)
    &&& staged.resolved_inputs@.dom() == task.assigned_inputs@.dom()
    &&& forall|slot: Seq<char>| #[trigger]
        task.assigned_inputs@.contains_key(slot) ==> staged.resolved_inputs@[slot]@
            == staged_input(repository.inputs@[task.assigned_inputs@[slot]])
    &&& staged.resolved_outputs@.dom() == task.assigned_outputs@.dom()
    &&& forall|slot: Seq<char>| #[trigger]
        task.assigned_outputs@.contains_key(slot) ==> staged.resolved_outputs@[slot]@
            == staged_output(repository.outputs@[task.assigned_outputs@[slot]])
}

/// Resolves the input files of each slot, or finds one missing.
fn resolve_inputs(assigned: &NameMap<ExternalID>, repository: &Repository) -> (resolved: Option<
    NameMap<StagedFileRef>,
>)
    ensures
        resolved is Some <==> all_present(assigned@, repository.inputs@),
        resolved matches Some(files) ==> files@.dom() == assigned@.dom() && forall|
            slot: Seq<char>,
        | #[trigger]
            assigned@.contains_key(slot) ==> files@[slot]@ == staged_input(
                repository.inputs@[assigned@[slot]],
            ),
{
    let n = assigned.len();
    let mut files: NameMap<StagedFileRef> = NameMap::new();
    let mut i: usize = 0;
    while i < n
        invariant
            i <= n,
            n == assigned.entries().len(),
            assigned.listed(),
            forall|j: int|
                0 <= j < i ==> repository.inputs@.contains_key(
                    (#[trigger] assigned.entries()[j]).1,
                ),
            forall|slot: Seq<char>|
                files@.contains_key(slot) <==> exists|j: int|
                    0 <= j < i && (#[trigger] assigned.entries()[j]).0@ == slot,
            forall|j: int|
                0 <= j < i ==> files@[(#[trigger] assigned.entries()[j]).0@]@ == staged_input(
                    repository.inputs@[assigned.entries()[j].1],
                ),
        decreases n - i,
    {
        let slot = assigned.name_at(i);
        let id = assigned.value_at(i);
        match repository.get_input(id) {
            None => {
                proof {
                    assert(assigned@.contains_key(assigned.entries()[i as int].0@));
                }
                return None;
            },
            Some(file) => {
                let ghost before = files@;
                files.insert(
                    slot.copy(),
                    StagedFileRef { url: file.url.clone(), crypto: file.crypto, cmac: Some(file.cmac) },
                );
                proof {
                    assert forall|slot: Seq<char>| files@.contains_key(slot) <==> exists|j: int|
                        0 <= j < i + 1 && (#[trigger] assigned.entries()[j]).0@ == slot by {
                        if files@.contains_key(slot) {
                            if slot == assigned.entries()[i as int].0@ {
                            } else {
                                assert(before.contains_key(slot));
                                let j = choose|j: int|
                                    0 <= j < i && (#[trigger] assigned.entries()[j]).0@ == slot;
                                assert(0 <= j < i + 1 && assigned.entries()[j].0@ == slot);
                            }
                        }
                        if exists|j: int|
                            0 <= j < i + 1 && (#[trigger] assigned.entries()[j]).0@ == slot {
                            let j = choose|j: int|
                                0 <= j < i + 1 && (#[trigger] assigned.entries()[j]).0@ == slot;
                            if j < i {
                                assert(before.contains_key(slot));
                            }
                        }
                    }
                    assert forall|j: int| 0 <= j < i + 1 implies files@[(
                    #[trigger] assigned.entries()[j]).0@]@ == staged_input(
                        repository.inputs@[assigned.entries()[j].1],
                    ) by {
                        if j < i {
                            assert(assigned.entries()[j].0@ != assigned.entries()[i as int].0@);
                        }
                    }
                }
            },
        }
        i += 1;
    }
    proof {
        assert forall|slot: Seq<char>| #[trigger] assigned@.contains_key(slot) implies (
        repository.inputs@.contains_key(assigned@[slot]) && files@.contains_key(slot)
            && files@[slot]@
            == staged_input(repository.inputs@[assigned@[slot]])) by {
            let j = choose|j: int|
                0 <= j < assigned.entries().len() && (#[trigger] assigned.entries()[j]).0@ == slot;
            assert(assigned@[assigned.entries()[j].0@] == assigned.entries()[j].1);
        }
        assert forall|slot: Seq<char>| files@.contains_key(slot) implies assigned@.contains_key(
            slot,
        ) by {
            let j = choose|j: int| 0 <= j < i && (#[trigger] assigned.entries()[j]).0@ == slot;
            assert(assigned@.contains_key(assigned.entries()[j].0@));
        }
        assert(files@.dom() =~= assigned@.dom());
    }
    Some(files)
}

/// Resolves the output files of each slot, or finds one missing.
fn resolve_outputs(assigned: &NameMap<ExternalID>, repository: &Repository) -> (resolved: Option<
    NameMap<StagedFileRef>,
>)
    ensures
        resolved is Some <==> all_present(assigned@, repository.outputs@),
        resolved matches Some(files) ==> files@.dom() == assigned@.dom() && forall|
            slot: Seq<char>,
        | #[trigger]
            assigned@.contains_key(slot) ==> files@[slot]@ == staged_output(
                repository.outputs@[assigned@[slot]],
            ),
{
    let n = assigned.len();
    let mut files: NameMap<StagedFileRef> = NameMap::new();
    let mut i: usize = 0;
    while i < n
        invariant
            i <= n,
            n == assigned.entries().len(),
            assigned.listed(),
            forall|j: int|
                0 <= j < i ==> repository.outputs@.contains_key(
                    (#[trigger] assigned.entries()[j]).1,
                ),
            forall|slot: Seq<char>|
                files@.contains_key(slot) <==> exists|j: int|
                    0 <= j < i && (#[trigger] assigned.entries()[j]).0@ == slot,
            forall|j: int|
                0 <= j < i ==> files@[(#[trigger] assigned.entries()[j]).0@]@ == staged_output(
                    repository.outputs@[assigned.entries()[j].1],
                ),
        decreases n - i,
    {
        let slot = assigned.name_at(i);
        let id = assigned.value_at(i);
        match repository.get_output(id) {
            None => {
                proof {
                    assert(assigned@.contains_key(assigned.entries()[i as int].0@));
                }
                return None;
            },
            Some(file) => {
                let ghost before = files@;
                files.insert(
                    slot.copy(),
                    StagedFileRef { url: file.url.clone(), crypto: file.crypto, cmac: file.cmac },
                );
                proof {
                    assert forall|slot: Seq<char>| files@.contains_key(slot) <==> exists|j: int|
                        0 <= j < i + 1 && (#[trigger] assigned.entries()[j]).0@ == slot by {
                        if files@.contains_key(slot) {
                            if slot == assigned.entries()[i as int].0@ {
                            } else {
                                assert(before.contains_key(slot));
                                let j = choose|j: int|
                                    0 <= j < i && (#[trigger] assigned.entries()[j]).0@ == slot;
                                assert(0 <= j < i + 1 && assigned.entries()[j].0@ == slot);
                            }
                        }
                        if exists|j: int|
                            0 <= j < i + 1 && (#[trigger] assigned.entries()[j]).0@ == slot {
                            let j = choose|j: int|
                                0 <= j < i + 1 && (#[trigger] assigned.entries()[j]).0@ == slot;
                            if j < i {
                                assert(before.contains_key(slot));
                            }
                        }
                    }
                    assert forall|j: int| 0 <= j < i + 1 implies files@[(
                    #[trigger] assigned.entries()[j]).0@]@ == staged_output(
                        repository.outputs@[assigned.entries()[j].1],
                    ) by {
                        if j < i {
                            assert(assigned.entries()[j].0@ != assigned.entries()[i as int].0@);
                        }
                    }
                }
            },
        }
        i += 1;
    }
    proof {
        assert forall|slot: Seq<char>| #[trigger] assigned@.contains_key(slot) implies (
        repository.outputs@.contains_key(assigned@[slot]) && files@.contains_key(slot)
            && files@[slot]@ == staged_output(repository.outputs@[assigned@[slot]])) by {
            let j = choose|j: int|
                0 <= j < assigned.entries().len() && (#[trigger] assigned.entries()[j]).0@ == slot;
            assert(assigned@[assigned.entries()[j].0@] == assigned.entries()[j].1);
        }
        assert forall|slot: Seq<char>| files@.contains_key(slot) implies assigned@.contains_key(
            slot,
        ) by {
            let j = choose|j: int| 0 <= j < i && (#[trigger] assigned.entries()[j]).0@ == slot;
            assert(assigned@.contains_key(assigned.entries()[j].0@));
        }
        assert(files@.dom() =~= assigned@.dom());
    }
    Some(files)
}

/// The staged view of `task`: its function's payload, its arguments, and the
/// files of its slots resolved to where they are. `None` where the function
/// or an assigned file is no longer on record.
pub fn stage(repository: &Repository, task: &Task) -> (staged: Option<StagedTask>)
    ensures
        staged is Some <==> stageable(repository, task),
        staged matches Some(view) ==> is_staging_of(&view, repository, task),
{
    let function_payload = match repository.get_function(&task.function_id) {
        None => {
            return None;
        },
        Some(function) => {
            let payload = function.payload.clone();
            assert(payload@ =~= function.payload@);
            payload
        },
    };
    let resolved_inputs = match resolve_inputs(&task.assigned_inputs, repository) {
        None => {
            return None;
        },
        Some(files) => files,
    };
    let resolved_outputs = match resolve_outputs(&task.assigned_outputs, repository) {
        None => {
            return None;
        },
        Some(files) => files,
    };
    Some(
        StagedTask {
            task_id: task.id,
            function_payload,
            resolved_inputs,
            resolved_outputs,
            executor: task.executor,
            arguments: clone_texts(&task.function_arguments),
        },
    )
}

} // verus!
