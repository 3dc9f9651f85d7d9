//! The entity repository: typed tables of users, functions, files and tasks.
//! A task row carries a version, and a task is written back only against the
//! version that it was read at.

use crate::entities::{Function, InputFile, OutputFile, User};
use crate::error::ErrorKind;
use crate::ids::{ExternalID, IdKind};
use crate::table::{IdMap, NameMap};
use crate::task::{
    is_terminal, lemma_transition_advances, rank, task_inv, transition, Task, TaskEvent,
    TaskEventView, TaskView,
};
use vstd::prelude::*;

verus! {

/// A stored task with the version of its row.
pub struct TaskRow {
    pub task: Task,
    pub version: u64,
}

/// The tables of the durable entities.
pub struct Repository {
    pub users: NameMap<User>,
    pub functions: IdMap<Function>,
    pub inputs: IdMap<InputFile>,
    pub outputs: IdMap<OutputFile>,
    pub tasks: IdMap<TaskRow>,
}

/// Some task of `tasks` that has not reached a terminal state runs the
/// function `function`.
pub open spec fn in_use(tasks: Map<ExternalID, TaskRow>, function: ExternalID) -> bool {
    exists|id: ExternalID|
        tasks.contains_key(id) && (#[trigger] tasks[id]).task.function_id == function
            && !is_terminal(tasks[id].task.status)
}

/// The version that follows `version`: one more, and after the highest the
/// lowest again. A version tells two writes of a row apart and says nothing
/// else.
pub open spec fn next_version(version: u64) -> u64 {
    if version == u64::MAX {
        0
    } else {
        (version + 1) as u64
    }
}

/// How often a write is tried at most, the first time counted.
pub const WRITE_ATTEMPTS: u32 = 3;

/// What follows a write.
#[derive(Clone, Copy, Debug, PartialEq, Eq, Structural)]
pub enum WriteStep {
    /// The write went through.
    Done,
    /// The write was refused as stale: read again, apply again, write again.
    Again,
    /// The write has failed for good, with this error.
    GiveUp(ErrorKind),
}

/// What follows a write that came to `written` after `failures` writes
/// refused as stale: a write that went through is done; one refused as stale
/// is tried again, unless it was the last of `WRITE_ATTEMPTS`, which fails as
/// stale; any other error fails at once.
pub open spec fn step_after(failures: u32, written: Result<u64, ErrorKind>) -> WriteStep {
    match written {
        Ok(_) => WriteStep::Done,
        Err(ErrorKind::Stale) => if failures + 1 < WRITE_ATTEMPTS {
            WriteStep::Again
        } else {
            WriteStep::GiveUp(ErrorKind::Stale)
        },
        Err(error) => WriteStep::GiveUp(error),
    }
}

/// What follows a write that came to `written` after `failures` writes
/// refused as stale.
pub fn write_step(failures: u32, written: &Result<u64, ErrorKind>) -> (step: WriteStep)
    ensures
        step == step_after(failures, *written),
{
    match written {
        Ok(_) => WriteStep::Done,
        Err(ErrorKind::Stale) => if failures < WRITE_ATTEMPTS - 1 {
            WriteStep::Again
        } else {
            WriteStep::GiveUp(ErrorKind::Stale)
        },
        Err(error) => WriteStep::GiveUp(*error),
    }
}

/// No task has been lost or taken back: every task of `before` is a task of
/// `after`, under the same identifier, in a state of the same or a higher
/// rank, and one that had reached a terminal state is what it was.
pub open spec fn advanced(before: Map<ExternalID, TaskRow>, after: Map<ExternalID, TaskRow>) -> bool {
    forall|id: ExternalID| #[trigger]
        before.contains_key(id) ==> {
            &&& after.contains_key(id)
            &&& rank(after[id].task.status) >= rank(before[id].task.status)
            &&& is_terminal(before[id].task.status) ==> after[id].task@ == before[id].task@
        }
}

/// What applying `event` to the task stored under `id` comes to: the task
/// after the event, or the error.
pub open spec fn applied(
    tasks: Map<ExternalID, TaskRow>,
    id: ExternalID,
    event: TaskEventView,
) -> Result<TaskView, ErrorKind> {
    if id.kind != IdKind::Task {
        Err(ErrorKind::InvalidArgument)
    } else if !tasks.contains_key(id) {
        Err(ErrorKind::NotFound)
    } else {
        match transition(tasks[id].task@, event) {
            Err(error) => Err(error),
            Ok(after) => Ok(after),
        }
    }
}

/// The task table `after` is `before` with the task under `id` replaced by
/// one whose model is `task`, at the next version.
pub open spec fn rewritten(
    before: Map<ExternalID, TaskRow>,
    after: Map<ExternalID, TaskRow>,
    id: ExternalID,
    task: TaskView,
) -> bool {
    &&& before.contains_key(id)
    &&& after.dom() == before.dom()
    &&& after[id].task@ == task
    &&& after[id].task.id == id
    &&& after[id].version == next_version(before[id].version)
    &&& forall|other: ExternalID|
        before.contains_key(other) && other != id ==> #[trigger] after[other] == before[other]
}

/// Whether every task of `table` is stored under its own identifier, of the kind of tasks, and meets the task invariant.
fn tasks_in_order(table: &IdMap<TaskRow>) -> (ok: bool)
    ensures
        ok == forall|id: ExternalID|
            table@.contains_key(id) ==> id.kind == IdKind::Task && (#[trigger] table@[id]).task.id
                == id && task_inv(table@[id].task@),
{
    let n = table.len();
    let mut i: usize = 0;
    while i < n
        invariant
            i <= n,
            n == table.entries().len(),
            table.listed(),
            forall|j: int|
                0 <= j < i ==> (#[trigger] table.entries()[j]).0.kind == IdKind::Task
                    && table.entries()[j].1.task.id == table.entries()[j].0 && task_inv(table.entries()[j].1.task@),
        decreases n - i,
    {
        let id = table.name_at(i);
        let row = table.value_at(i);
        if id.kind != IdKind::Task || row.task.id != *id || !row.task.meets_invariant() {
            proof {
                let at = table.entries()[i as int].0@;
                assert(table@.contains_key(at));
                assert(table@[at] == table.entries()[i as int].1);
            }
            return false;
        }
        i += 1;
    }
    proof {
        assert forall|id: ExternalID| table@.contains_key(id) implies id.kind == IdKind::Task && (
        #[trigger] table@[id]).task.id == id && task_inv(table@[id].task@) by {
            let j = choose|j: int|
                0 <= j < table.entries().len() && (#[trigger] table.entries()[j]).0@ == id;
            assert(table@[table.entries()[j].0@] == table.entries()[j].1);
        }
    }
    true
}

/// Whether every function of `table` is stored under its own identifier, of the kind of functions.
fn functions_in_order(table: &IdMap<Function>) -> (ok: bool)
    ensures
        ok == forall|id: ExternalID|
            table@.contains_key(id) ==> id.kind == IdKind::Function && (#[trigger] table@[id]).id
                == id,
{
    let n = table.len();
    let mut i: usize = 0;
    while i < n
        invariant
            i <= n,
            n == table.entries().len(),
            table.listed(),
            forall|j: int|
                0 <= j < i ==> (#[trigger] table.entries()[j]).0.kind == IdKind::Function
                    && table.entries()[j].1.id == table.entries()[j].0,
        decreases n - i,
    {
        let id = table.name_at(i);
        let row = table.value_at(i);
        if id.kind != IdKind::Function || row.id != *id {
            proof {
                let at = table.entries()[i as int].0@;
                assert(table@.contains_key(at));
                assert(table@[at] == table.entries()[i as int].1);
            }
            return false;
        }
        i += 1;
    }
    proof {
        assert forall|id: ExternalID| table@.contains_key(id) implies id.kind == IdKind::Function && (
        #[trigger] table@[id]).id == id by {
            let j = choose|j: int|
                0 <= j < table.entries().len() && (#[trigger] table.entries()[j]).0@ == id;
            assert(table@[table.entries()[j].0@] == table.entries()[j].1);
        }
    }
    true
}

/// Whether every input file of `table` is stored under its own identifier, of the kind of input files.
fn inputs_in_order(table: &IdMap<InputFile>) -> (ok: bool)
    ensures
        ok == forall|id: ExternalID|
            table@.contains_key(id) ==> id.kind == IdKind::Input && (#[trigger] table@[id]).id
                == id,
{
    let n = table.len();
    let mut i: usize = 0;
    while i < n
        invariant
            i <= n,
            n == table.entries().len(),
            table.listed(),
            forall|j: int|
                0 <= j < i ==> (#[trigger] table.entries()[j]).0.kind == IdKind::Input
                    && table.entries()[j].1.id == table.entries()[j].0,
        decreases n - i,
    {
        let id = table.name_at(i);
        let row = table.value_at(i);
        if id.kind != IdKind::Input || row.id != *id {
            proof {
                let at = table.entries()[i as int].0@;
                assert(table@.contains_key(at));
                assert(table@[at] == table.entries()[i as int].1);
            }
            return false;
        }
        i += 1;
    }
    proof {
        assert forall|id: ExternalID| table@.contains_key(id) implies id.kind == IdKind::Input && (
        #[trigger] table@[id]).id == id by {
            let j = choose|j: int|
                0 <= j < table.entries().len() && (#[trigger] table.entries()[j]).0@ == id;
            assert(table@[table.entries()[j].0@] == table.entries()[j].1);
        }
    }
    true
}

/// Whether every output file of `table` is stored under its own identifier, of the kind of output files.
fn outputs_in_order(table: &IdMap<OutputFile>) -> (ok: bool)
    ensures
        ok == forall|id: ExternalID|
            table@.contains_key(id) ==> id.kind == IdKind::Output && (#[trigger] table@[id]).id
                == id,
{
    let n = table.len();
    let mut i: usize = 0;
    while i < n
        invariant
            i <= n,
            n == table.entries().len(),
            table.listed(),
            forall|j: int|
                0 <= j < i ==> (#[trigger] table.entries()[j]).0.kind == IdKind::Output
                    && table.entries()[j].1.id == table.entries()[j].0,
        decreases n - i,
    {
        let id = table.name_at(i);
        let row = table.value_at(i);
        if id.kind != IdKind::Output || row.id != *id {
            proof {
                let at = table.entries()[i as int].0@;
                assert(table@.contains_key(at));
                assert(table@[at] == table.entries()[i as int].1);
            }
            return false;
        }
        i += 1;
    }
    proof {
        assert forall|id: ExternalID| table@.contains_key(id) implies id.kind == IdKind::Output && (
        #[trigger] table@[id]).id == id by {
            let j = choose|j: int|
                0 <= j < table.entries().len() && (#[trigger] table.entries()[j]).0@ == id;
            assert(table@[table.entries()[j].0@] == table.entries()[j].1);
        }
    }
    true
}

/// Whether every user of `table` is stored under the user's own name.
fn users_in_order(table: &NameMap<User>) -> (ok: bool)
    ensures
        ok == forall|name: Seq<char>|
            table@.contains_key(name) ==> (#[trigger] table@[name]).id@ == name,
{
    let n = table.len();
    let mut i: usize = 0;
    while i < n
        invariant
            i <= n,
            n == table.entries().len(),
            table.listed(),
            forall|j: int|
                0 <= j < i ==> (#[trigger] table.entries()[j]).1.id@ == table.entries()[j].0@,
        decreases n - i,
    {
        let name = table.name_at(i);
        let user = table.value_at(i);
        if user.id != *name {
            proof {
                let at = table.entries()[i as int].0@;
                assert(table@.contains_key(at));
                assert(table@[at] == table.entries()[i as int].1);
            }
            return false;
        }
        i += 1;
    }
    proof {
        assert forall|name: Seq<char>| table@.contains_key(name) implies (#[trigger] table@[name]).id@
            == name by {
            let j = choose|j: int|
                0 <= j < table.entries().len() && (#[trigger] table.entries()[j]).0@ == name;
            assert(table@[table.entries()[j].0@] == table.entries()[j].1);
        }
    }
    true
}

impl Repository {
    /// Every entity is stored under its own identifier, each table holds
    /// identifiers of its own kind only, and every task meets the task
    /// invariant.
    pub open spec fn wf(&self) -> bool {
        &&& forall|id: ExternalID|
            self.tasks@.contains_key(id) ==> id.kind == IdKind::Task && (
            #[trigger] self.tasks@[id]).task.id == id && task_inv(self.tasks@[id].task@)
        &&& forall|id: ExternalID|
            self.functions@.contains_key(id) ==> id.kind == IdKind::Function && (
            #[trigger] self.functions@[id]).id == id
        &&& forall|id: ExternalID|
            self.inputs@.contains_key(id) ==> id.kind == IdKind::Input && (
            #[trigger] self.inputs@[id]).id == id
        &&& forall|id: ExternalID|
            self.outputs@.contains_key(id) ==> id.kind == IdKind::Output && (
            #[trigger] self.outputs@[id]).id == id
        &&& forall|name: Seq<char>|
            self.users@.contains_key(name) ==> (#[trigger] self.users@[name]).id@ == name
    }

    /// Whether a task is stored under `id`.
    pub open spec fn has_task(&self, id: ExternalID) -> bool {
        self.tasks@.contains_key(id)
    }

    /// The model of the task stored under `id`.
    pub open spec fn task(&self, id: ExternalID) -> TaskView {
        self.tasks@[id].task@
    }

    /// The tables other than the task table are the same in both.
    pub open spec fn same_but_tasks(&self, other: &Repository) -> bool {
        &&& self.users == other.users
        &&& self.functions == other.functions
        &&& self.inputs == other.inputs
        &&& self.outputs == other.outputs
    }

    /// The repository with no entity.
    pub fn new() -> (repository: Self)
        ensures
            repository.wf(),
            repository.users@ == Map::<Seq<char>, User>::empty(),
            repository.functions@ == Map::<ExternalID, Function>::empty(),
            repository.inputs@ == Map::<ExternalID, InputFile>::empty(),
            repository.outputs@ == Map::<ExternalID, OutputFile>::empty(),
            repository.tasks@ == Map::<ExternalID, TaskRow>::empty(),
    {
        Repository {
            users: NameMap::new(),
            functions: IdMap::new(),
            inputs: IdMap::new(),
            outputs: IdMap::new(),
            tasks: IdMap::new(),
        }
    }

    /// Reads the task stored under `id`, with the version of its row. An
    /// identifier of another kind is refused.
    pub fn get_task(&self, id: &ExternalID) -> (found: Result<(Task, u64), ErrorKind>)
        ensures
            id.kind != IdKind::Task ==> found == Err::<(Task, u64), ErrorKind>(
                ErrorKind::InvalidArgument,
            ),
            id.kind == IdKind::Task && !self.has_task(*id) ==> found == Err::<
                (Task, u64),
                ErrorKind,
            >(ErrorKind::NotFound),
            id.kind == IdKind::Task && self.has_task(*id) ==> found is Ok && found.unwrap().0@
                == self.task(*id) && found.unwrap().1 == self.tasks@[*id].version,
    {
        if id.kind != IdKind::Task {
            return Err(ErrorKind::InvalidArgument);
        }
        match self.tasks.get(id) {
            None => Err(ErrorKind::NotFound),
            Some(row) => Ok((row.task.clone(), row.version)),
        }
    }

    /// Stores a new task under its identifier, at version zero. A task whose
    /// identifier is of another kind, or is taken, is refused.
    pub fn insert_task(&mut self, task: Task) -> (done: Result<(), ErrorKind>)
        ensures
            final(self).same_but_tasks(old(self)),
            task.id.kind != IdKind::Task || old(self).has_task(task.id) ==> done == Err::<
                (),
                ErrorKind,
            >(ErrorKind::InvalidArgument) && final(self).tasks == old(self).tasks,
            task.id.kind == IdKind::Task && !old(self).has_task(task.id) ==> done is Ok
                && final(self).tasks@ == old(self).tasks@.insert(task.id, TaskRow { task, version: 0 }),
            old(self).wf() && task_inv(task@) ==> final(self).wf(),
    {
        if task.id.kind != IdKind::Task || self.tasks.contains_key(&task.id) {
            return Err(ErrorKind::InvalidArgument);
        }
        self.tasks.insert(task.id, TaskRow { task, version: 0 });
        Ok(())
    }

    /// Writes `task` back over the row that was read at `expected_version`:
    /// where the row has that version the task is stored under the next
    /// version; where it has another the write is refused as stale.
    pub fn update_task(&mut self, task: Task, expected_version: u64) -> (done: Result<
        u64,
        ErrorKind,
    >)
        ensures
            final(self).same_but_tasks(old(self)),
            done is Err ==> final(self).tasks == old(self).tasks,
            !old(self).has_task(task.id) ==> done == Err::<u64, ErrorKind>(ErrorKind::NotFound),
            old(self).has_task(task.id) && old(self).tasks@[task.id].version != expected_version
                ==> done == Err::<u64, ErrorKind>(ErrorKind::Stale),
            old(self).has_task(task.id) && old(self).tasks@[task.id].version == expected_version
                ==> done == Ok::<u64, ErrorKind>(next_version(expected_version))
                && final(self).tasks@ == old(self).tasks@.insert(
                task.id,
                TaskRow { task, version: next_version(expected_version) },
            ),
            old(self).wf() && task_inv(task@) ==> final(self).wf(),
    {
        let version = match self.tasks.get(&task.id) {
            None => {
                return Err(ErrorKind::NotFound);
            },
            Some(row) => row.version,
        };
        if version != expected_version {
            return Err(ErrorKind::Stale);
        }
        let next: u64 = if version == u64::MAX {
            0
        } else {
            version + 1
        };
        self.tasks.insert(task.id, TaskRow { task, version: next });
        Ok(next)
    }

    /// Whether the repository is well formed. Tables that were filled from
    /// outside, from what was read off a disk, are held to this before any
    /// request works on them.
    pub fn is_well_formed(&self) -> (ok: bool)
        ensures
            ok == self.wf(),
    {
        tasks_in_order(&self.tasks) && functions_in_order(&self.functions) && inputs_in_order(
            &self.inputs,
        ) && outputs_in_order(&self.outputs) && users_in_order(&self.users)
    }

    /// Whether some task that has not reached a terminal state runs the
    /// function `function`.
    pub fn function_in_use(&self, function: &ExternalID) -> (used: bool)
        ensures
            used == in_use(self.tasks@, *function),
    {
        let n = self.tasks.len();
        let mut i: usize = 0;
        while i < n
            invariant
                i <= n,
                n == self.tasks.entries().len(),
                self.tasks.listed(),
                forall|j: int|
                    0 <= j < i ==> !((#[trigger] self.tasks.entries()[j]).1.task.function_id
                        == *function && !is_terminal(self.tasks.entries()[j].1.task.status)),
            decreases n - i,
        {
            let row = self.tasks.value_at(i);
            if row.task.function_id == *function && !row.task.is_terminal() {
                proof {
                    let id = self.tasks.entries()[i as int].0@;
                    assert(self.tasks@.contains_key(id));
                    assert(self.tasks@[id] == self.tasks.entries()[i as int].1);
                }
                return true;
            }
            i += 1;
        }
        proof {
            if in_use(self.tasks@, *function) {
                let id = choose|id: ExternalID|
                    self.tasks@.contains_key(id) && (#[trigger] self.tasks@[id]).task.function_id
                        == *function && !is_terminal(self.tasks@[id].task.status);
                let j = choose|j: int|
                    0 <= j < self.tasks.entries().len() && (#[trigger] self.tasks.entries()[j]).0@
                        == id;
                assert(self.tasks@[self.tasks.entries()[j].0@] == self.tasks.entries()[j].1);
            }
        }
        false
    }

    /// The function stored under `id`, if any.
    pub fn get_function(&self, id: &ExternalID) -> (found: Option<&Function>)
        ensures
            self.functions@.contains_key(*id) ==> found == Some(&self.functions@[*id]),
            !self.functions@.contains_key(*id) ==> found is None,
    {
        self.functions.get(id)
    }

    /// Stores `function` under its identifier, in place of an earlier
    /// function with that identifier. An identifier of another kind is
    /// refused.
    pub fn put_function(&mut self, function: Function) -> (done: Result<(), ErrorKind>)
        ensures
            final(self).tasks == old(self).tasks,
            final(self).users == old(self).users,
            final(self).inputs == old(self).inputs,
            final(self).outputs == old(self).outputs,
            function.id.kind != IdKind::Function ==> done == Err::<(), ErrorKind>(
                ErrorKind::InvalidArgument,
            ) && final(self).functions == old(self).functions,
            function.id.kind == IdKind::Function ==> done is Ok
                && final(self).functions@ == old(self).functions@.insert(function.id, function),
            old(self).wf() ==> final(self).wf(),
    {
        if function.id.kind != IdKind::Function {
            return Err(ErrorKind::InvalidArgument);
        }
        self.functions.insert(function.id, function);
        Ok(())
    }

    /// Takes the function stored under `id` out of the repository.
    pub fn remove_function(&mut self, id: &ExternalID) -> (removed: Option<Function>)
        ensures
            final(self).tasks == old(self).tasks,
            final(self).users == old(self).users,
            final(self).inputs == old(self).inputs,
            final(self).outputs == old(self).outputs,
            final(self).functions@ == old(self).functions@.remove(*id),
            old(self).functions@.contains_key(*id) ==> removed == Some(old(self).functions@[*id]),
            !old(self).functions@.contains_key(*id) ==> removed is None,
            old(self).wf() ==> final(self).wf(),
    {
        self.functions.remove(id)
    }

    /// The input file stored under `id`, if any.
    pub fn get_input(&self, id: &ExternalID) -> (found: Option<&InputFile>)
        ensures
            self.inputs@.contains_key(*id) ==> found == Some(&self.inputs@[*id]),
            !self.inputs@.contains_key(*id) ==> found is None,
    {
        self.inputs.get(id)
    }

    /// Stores `file` under its identifier. An identifier of another kind is
    /// refused.
    pub fn put_input(&mut self, file: InputFile) -> (done: Result<(), ErrorKind>)
        ensures
            final(self).tasks == old(self).tasks,
            final(self).users == old(self).users,
            final(self).functions == old(self).functions,
            final(self).outputs == old(self).outputs,
            file.id.kind != IdKind::Input ==> done == Err::<(), ErrorKind>(
                ErrorKind::InvalidArgument,
            ) && final(self).inputs == old(self).inputs,
            file.id.kind == IdKind::Input ==> done is Ok
                && final(self).inputs@ == old(self).inputs@.insert(file.id, file),
            old(self).wf() ==> final(self).wf(),
    {
        if file.id.kind != IdKind::Input {
            return Err(ErrorKind::InvalidArgument);
        }
        self.inputs.insert(file.id, file);
        Ok(())
    }

    /// The output file stored under `id`, if any.
    pub fn get_output(&self, id: &ExternalID) -> (found: Option<&OutputFile>)
        ensures
            self.outputs@.contains_key(*id) ==> found == Some(&self.outputs@[*id]),
            !self.outputs@.contains_key(*id) ==> found is None,
    {
        self.outputs.get(id)
    }

    /// Stores `file` under its identifier. An identifier of another kind is
    /// refused.
    pub fn put_output(&mut self, file: OutputFile) -> (done: Result<(), ErrorKind>)
        ensures
            final(self).tasks == old(self).tasks,
            final(self).users == old(self).users,
            final(self).functions == old(self).functions,
            final(self).inputs == old(self).inputs,
            file.id.kind != IdKind::Output ==> done == Err::<(), ErrorKind>(
                ErrorKind::InvalidArgument,
            ) && final(self).outputs == old(self).outputs,
            file.id.kind == IdKind::Output ==> done is Ok
                && final(self).outputs@ == old(self).outputs@.insert(file.id, file),
            old(self).wf() ==> final(self).wf(),
    {
        if file.id.kind != IdKind::Output {
            return Err(ErrorKind::InvalidArgument);
        }
        self.outputs.insert(file.id, file);
        Ok(())
    }

    /// Stores `user` under its name.
    pub fn put_user(&mut self, user: User)
        ensures
            final(self).tasks == old(self).tasks,
            final(self).functions == old(self).functions,
            final(self).inputs == old(self).inputs,
            final(self).outputs == old(self).outputs,
            final(self).users@ == old(self).users@.insert(user.id@, user),
            old(self).wf() ==> final(self).wf(),
    {
        let name = user.id.clone();
        self.users.insert(name, user);
    }

    /// The user stored under `name`, if any.
    pub fn get_user(&self, name: &String) -> (found: Option<&User>)
        ensures
            self.users@.contains_key(name@) ==> found == Some(&self.users@[name@]),
            !self.users@.contains_key(name@) ==> found is None,
    {
        self.users.get(name)
    }

    /// Reads the task under `id`, applies `event` to it and writes it back
    /// against the version read; what follows a write is what `write_step`
    /// says. While the repository is held exclusively no row moves on between
    /// a reading and the write, so the first write is not refused as stale.
    pub fn transact(&mut self, id: &ExternalID, event: &TaskEvent) -> (done: Result<
        (),
        ErrorKind,
    >)
        requires
            old(self).wf(),
        ensures
            final(self).wf(),
            final(self).same_but_tasks(old(self)),
            advanced(old(self).tasks@, final(self).tasks@),
            match applied(old(self).tasks@, *id, event@) {
                Ok(after) => done is Ok && rewritten(
                    old(self).tasks@,
                    final(self).tasks@,
                    *id,
                    after,
                ),
                Err(error) => done == Err::<(), ErrorKind>(error)
                    && final(self).tasks == old(self).tasks,
            },
    {
        let mut failures: u32 = 0;
        loop
            invariant
                failures < WRITE_ATTEMPTS,
                *self == *old(self),
                self.wf(),
            decreases WRITE_ATTEMPTS - failures,
        {
            let (mut task, version) = match self.get_task(id) {
                Err(error) => {
                    return Err(error);
                },
                Ok(found) => found,
            };
            let ghost before = task@;
            match task.apply(event) {
                Err(error) => {
                    return Err(error);
                },
                Ok(()) => {},
            }
            proof {
                lemma_transition_advances(before, event@);
            }
            assert(task.id == *id);
            let written = self.update_task(task, version);
            match write_step(failures, &written) {
                WriteStep::Done => {
                    assert(self.tasks@.dom() =~= old(self).tasks@.dom());
                    return Ok(());
                },
                WriteStep::GiveUp(error) => {
                    return Err(error);
                },
                WriteStep::Again => {
                    failures = failures + 1;
                },
            }
        }
    }
}

} // verus!
