//! The executable state machine: creating a task and applying an event to
//! it, each proved against the model in `task`.

use crate::error::ErrorKind;
use crate::files::{FileAuthTag, FileRef};
use crate::ids::ExternalID;
use crate::names::NameSet;
use crate::table::{bindings, lemma_bindings_agree, NameMap};
use crate::task::{
    created, file_ids, files_view, lemma_created_inv, lemma_transition_keeps_inv, owners_covered,
    owners_of, ownership_view, slots_filled, slots_known, task_inv, texts_view, transition,
    ExecutorType, FailureReason, Task, TaskEvent, TaskOutcome, TaskStatus, LEASE_SECONDS,
};
use vstd::prelude::*;

verus! {

/// Adds to `participants` every user named in an owner set of `ownership`.
fn add_owners(participants: &mut NameSet, ownership: &NameMap<NameSet>)
    ensures
        final(participants)@ == old(participants)@.union(owners_of(ownership_view(ownership@))),
{
    let n = ownership.len();
    let mut i: usize = 0;
    while i < n
        invariant
            i <= n,
            n == ownership.entries().len(),
            ownership.listed(),
            participants@ == old(participants)@.union(
                Set::new(
                    |user: Seq<char>|
                        exists|j: int|
                            0 <= j < i && (#[trigger] ownership.entries()[j]).1@.contains(user),
                ),
            ),
        decreases n - i,
    {
        let ghost before = participants@;
        participants.extend(ownership.value_at(i));
        proof {
            let seen = Set::new(
                |user: Seq<char>|
                    exists|j: int|
                        0 <= j < i && (#[trigger] ownership.entries()[j]).1@.contains(user),
            );
            let seen_next = Set::new(
                |user: Seq<char>|
                    exists|j: int|
                        0 <= j < i + 1 && (#[trigger] ownership.entries()[j]).1@.contains(user),
            );
            assert forall|user: Seq<char>| seen_next.contains(user) == (seen.contains(user)
                || ownership.entries()[i as int].1@.contains(user)) by {
                if seen_next.contains(user) {
                    let j = choose|j: int|
                        0 <= j < i + 1 && (#[trigger] ownership.entries()[j]).1@.contains(user);
                    if j < i {
                        assert(seen.contains(user));
                    }
                }
                if seen.contains(user) {
                    let j = choose|j: int|
                        0 <= j < i && (#[trigger] ownership.entries()[j]).1@.contains(user);
                    assert(ownership.entries()[j].1@.contains(user));
                }
                if ownership.entries()[i as int].1@.contains(user) {
                    assert(seen_next.contains(user));
                }
            }
            assert(participants@ =~= old(participants)@.union(seen_next));
        }
        i += 1;
    }
    proof {
        let seen = Set::new(
            |user: Seq<char>|
                exists|j: int|
                    0 <= j < n && (#[trigger] ownership.entries()[j]).1@.contains(user),
        );
        let owners = owners_of(ownership_view(ownership@));
        assert forall|user: Seq<char>| seen.contains(user) == owners.contains(user) by {
            if seen.contains(user) {
                let j = choose|j: int|
                    0 <= j < n && (#[trigger] ownership.entries()[j]).1@.contains(user);
                let slot = ownership.entries()[j].0@;
                assert(ownership@.contains_key(slot));
                assert(ownership_view(ownership@)[slot].contains(user));
            }
            if owners.contains(user) {
                let slot = choose|slot: Seq<char>|
                    ownership_view(ownership@).contains_key(slot) && (
                    #[trigger] ownership_view(ownership@)[slot]).contains(user);
                assert(ownership@.contains_key(slot));
                let j = choose|j: int|
                    0 <= j < ownership.entries().len() && (#[trigger] ownership.entries()[j]).0@
                        == slot;
                assert(ownership.entries()[j].1@.contains(user));
            }
        }
        assert(seen =~= owners);
    }
}

/// Whether every binding of `files` names a slot of `ownership`.
fn all_slots_known(ownership: &NameMap<NameSet>, files: &NameMap<FileRef>) -> (known: bool)
    ensures
        known == slots_known(ownership_view(ownership@), files_view(files@)),
{
    let n = files.len();
    let mut i: usize = 0;
    while i < n
        invariant
            i <= n,
            n == files.entries().len(),
            files.listed(),
            forall|j: int|
                0 <= j < i ==> ownership@.contains_key((#[trigger] files.entries()[j]).0@),
        decreases n - i,
    {
        if !ownership.contains_key(files.name_at(i)) {
            proof {
                let slot = files.entries()[i as int].0@;
                assert(files_view(files@).dom().contains(slot));
                assert(!ownership_view(ownership@).dom().contains(slot));
            }
            return false;
        }
        i += 1;
    }
    proof {
        assert forall|slot: Seq<char>| files_view(files@).dom().contains(slot) implies ownership_view(
            ownership@,
        ).dom().contains(slot) by {
            assert(files@.contains_key(slot));
            let j = choose|j: int|
                0 <= j < files.entries().len() && (#[trigger] files.entries()[j]).0@ == slot;
            assert(ownership@.contains_key(files.entries()[j].0@));
        }
    }
    true
}

/// Whether each bound file is owned by at least the users that `ownership`
/// names for its slot.
fn all_owners_covered(ownership: &NameMap<NameSet>, files: &NameMap<FileRef>) -> (covered: bool)
    ensures
        covered == owners_covered(ownership_view(ownership@), files_view(files@)),
{
    let n = files.len();
    let mut i: usize = 0;
    while i < n
        invariant
            i <= n,
            n == files.entries().len(),
            files.listed(),
            forall|j: int|
                0 <= j < i && ownership@.contains_key((#[trigger] files.entries()[j]).0@)
                    ==> ownership@[files.entries()[j].0@]@.subset_of(
                    files.entries()[j].1.owners@,
                ),
        decreases n - i,
    {
        match ownership.get(files.name_at(i)) {
            Some(owners) => {
                if !owners.is_subset_of(&files.value_at(i).owners) {
                    proof {
                        let slot = files.entries()[i as int].0@;
                        assert(files_view(files@).contains_key(slot));
                        assert(ownership_view(ownership@).contains_key(slot));
                        assert(files_view(files@)[slot].owners == files.entries()[i as int].1.owners@);
                    }
                    return false;
                }
            },
            None => {},
        }
        i += 1;
    }
    proof {
        let o = ownership_view(ownership@);
        let f = files_view(files@);
        assert forall|slot: Seq<char>| #[trigger]
            f.contains_key(slot) && o.contains_key(slot) implies o[slot].subset_of(
            f[slot].owners,
        ) by {
            assert(files@.contains_key(slot));
            let j = choose|j: int|
                0 <= j < files.entries().len() && (#[trigger] files.entries()[j]).0@ == slot;
            assert(ownership@.contains_key(files.entries()[j].0@));
        }
    }
    true
}

/// Binds each slot of `files` to the identifier of its file.
fn bind_all(assigned: &mut NameMap<ExternalID>, files: &NameMap<FileRef>)
    ensures
        final(assigned)@ == old(assigned)@.union_prefer_right(file_ids(files_view(files@))),
{
    let n = files.len();
    let mut i: usize = 0;
    proof {
        assert(files.entries().take(0) =~= Seq::<(String, FileRef)>::empty());
        assert(assigned@ =~= old(assigned)@.union_prefer_right(
            file_ids(files_view(bindings(files.entries().take(0)))),
        ));
    }
    while i < n
        invariant
            i <= n,
            n == files.entries().len(),
            files.listed(),
            assigned@ == old(assigned)@.union_prefer_right(
                file_ids(files_view(bindings(files.entries().take(i as int)))),
            ),
        decreases n - i,
    {
        let name = files.name_at(i).clone();
        let id = files.value_at(i).id;
        proof {
            let done = files.entries().take(i as int);
            let next = files.entries().take(i + 1);
            let entry = files.entries()[i as int];
            assert(next.drop_last() =~= done);
            assert(next.last() == entry);
            assert(bindings(next) == bindings(done).insert(entry.0@, entry.1));
            assert(file_ids(files_view(bindings(next))) =~= file_ids(
                files_view(bindings(done)),
            ).insert(entry.0@, entry.1.id));
            assert(old(assigned)@.union_prefer_right(
                file_ids(files_view(bindings(done))).insert(entry.0@, entry.1.id),
            ) =~= old(assigned)@.union_prefer_right(file_ids(files_view(bindings(done)))).insert(
                entry.0@,
                entry.1.id,
            ));
        }
        assigned.insert(name, id);
        i += 1;
    }
    proof {
        assert(files.entries().take(n as int) =~= files.entries());
    }
}

/// Whether every slot of `ownership` has a file bound to it.
fn all_slots_filled(ownership: &NameMap<NameSet>, assigned: &NameMap<ExternalID>) -> (filled: bool)
    ensures
        filled == slots_filled(ownership_view(ownership@), assigned@),
{
    let n = ownership.len();
    let mut i: usize = 0;
    while i < n
        invariant
            i <= n,
            n == ownership.entries().len(),
            ownership.listed(),
            forall|j: int|
                0 <= j < i ==> assigned@.contains_key((#[trigger] ownership.entries()[j]).0@),
        decreases n - i,
    {
        if !assigned.contains_key(ownership.name_at(i)) {
            proof {
                let slot = ownership.entries()[i as int].0@;
                assert(ownership_view(ownership@).dom().contains(slot));
                assert(!assigned@.dom().contains(slot));
            }
            return false;
        }
        i += 1;
    }
    proof {
        assert forall|slot: Seq<char>| ownership_view(ownership@).dom().contains(
            slot,
        ) implies assigned@.dom().contains(slot) by {
            assert(ownership@.contains_key(slot));
            let j = choose|j: int|
                0 <= j < ownership.entries().len() && (#[trigger] ownership.entries()[j]).0@
                    == slot;
            assert(assigned@.contains_key(ownership.entries()[j].0@));
        }
    }
    true
}

/// Whether every slot that `assigned` binds is a slot of `ownership`.
fn all_bound_known(ownership: &NameMap<NameSet>, assigned: &NameMap<ExternalID>) -> (known: bool)
    ensures
        known == assigned@.dom().subset_of(ownership_view(ownership@).dom()),
{
    let n = assigned.len();
    let mut i: usize = 0;
    while i < n
        invariant
            i <= n,
            n == assigned.entries().len(),
            assigned.listed(),
            forall|j: int|
                0 <= j < i ==> ownership@.contains_key((#[trigger] assigned.entries()[j]).0@),
        decreases n - i,
    {
        if !ownership.contains_key(assigned.name_at(i)) {
            proof {
                let slot = assigned.entries()[i as int].0@;
                assert(assigned@.dom().contains(slot));
                assert(!ownership_view(ownership@).dom().contains(slot));
            }
            return false;
        }
        i += 1;
    }
    proof {
        assert forall|slot: Seq<char>| assigned@.dom().contains(slot) implies ownership_view(
            ownership@,
        ).dom().contains(slot) by {
            assert(assigned@.contains_key(slot));
            let j = choose|j: int|
                0 <= j < assigned.entries().len() && (#[trigger] assigned.entries()[j]).0@ == slot;
            assert(ownership@.contains_key(assigned.entries()[j].0@));
        }
    }
    true
}

/// Whether every user named in an owner set of `ownership` is one of
/// `participants`.
fn all_owners_within(ownership: &NameMap<NameSet>, participants: &NameSet) -> (within: bool)
    ensures
        within == owners_of(ownership_view(ownership@)).subset_of(participants@),
{
    let mut owners = NameSet::new();
    add_owners(&mut owners, ownership);
    proof {
        assert(owners@ =~= owners_of(ownership_view(ownership@)));
    }
    owners.is_subset_of(participants)
}

/// Whether `worker` is the worker that `assigned` names.
fn is_worker(assigned: &Option<String>, worker: &String) -> (same: bool)
    ensures
        same == (crate::task::text_view(*assigned) == Some(worker@)),
{
    match assigned {
        Some(name) => *name == *worker,
        None => false,
    }
}

/// The outcome of a task that failed for `reason`, without detail.
fn failure(reason: FailureReason) -> (outcome: TaskOutcome)
    ensures
        outcome@ == (crate::task::TaskOutcomeView::Failed { reason, detail: Seq::empty() }),
{
    TaskOutcome::Failed { reason, detail: String::new() }
}

impl Task {
    /// A new task in the state `Created`: nothing is assigned or approved,
    /// and the participants are the creator and every user named in an
    /// owner set.
    pub fn create(
        id: ExternalID,
        creator: String,
        function_id: ExternalID,
        function_arguments: NameMap<String>,
        executor: ExecutorType,
        inputs_ownership: NameMap<NameSet>,
        outputs_ownership: NameMap<NameSet>,
    ) -> (task: Task)
        ensures
            task@ == created(
                id,
                creator@,
                function_id,
                texts_view(function_arguments@),
                executor,
                ownership_view(inputs_ownership@),
                ownership_view(outputs_ownership@),
            ),
            task_inv(task@),
    {
        let mut participants = NameSet::new();
        add_owners(&mut participants, &inputs_ownership);
        add_owners(&mut participants, &outputs_ownership);
        participants.insert(creator.clone());
        proof {
            lemma_created_inv(
                id,
                creator@,
                function_id,
                texts_view(function_arguments@),
                executor,
                ownership_view(inputs_ownership@),
                ownership_view(outputs_ownership@),
            );
            assert(participants@ =~= owners_of(ownership_view(inputs_ownership@)).union(
                owners_of(ownership_view(outputs_ownership@)),
            ).insert(creator@));
        }
        Task {
            id,
            creator,
            function_id,
            function_arguments,
            executor,
            inputs_ownership,
            outputs_ownership,
            assigned_inputs: NameMap::new(),
            assigned_outputs: NameMap::new(),
            approved_users: NameSet::new(),
            participants,
            status: TaskStatus::Created,
            result: None,
            lease_deadline: None,
            assigned_worker: None,
        }
    }

    /// Applies `event`: on success the task is what the model gives for it,
    /// on failure the task is unchanged and the error is the model's.
    pub fn apply(&mut self, event: &TaskEvent) -> (done: Result<(), ErrorKind>)
        ensures
            match transition(old(self)@, event@) {
                Ok(after) => done is Ok && final(self)@ == after,
                Err(error) => done == Err::<(), ErrorKind>(error) && final(self)@ == old(self)@,
            },
            task_inv(old(self)@) ==> task_inv(final(self)@),
    {
        proof {
            if task_inv(self@) && transition(self@, event@) is Ok {
                lemma_transition_keeps_inv(self@, event@);
            }
        }
        match event {
            TaskEvent::AssignData { caller, inputs, outputs } => {
                if self.status != TaskStatus::Created {
                    return Err(ErrorKind::InvalidTaskState);
                }
                if !(*caller == self.creator) {
                    return Err(ErrorKind::PermissionDenied);
                }
                if !all_slots_known(&self.inputs_ownership, inputs) || !all_slots_known(
                    &self.outputs_ownership,
                    outputs,
                ) {
                    return Err(ErrorKind::InvalidArgument);
                }
                if !all_owners_covered(&self.inputs_ownership, inputs) || !all_owners_covered(
                    &self.outputs_ownership,
                    outputs,
                ) {
                    return Err(ErrorKind::PermissionDenied);
                }
                bind_all(&mut self.assigned_inputs, inputs);
                bind_all(&mut self.assigned_outputs, outputs);
                let filled = all_slots_filled(&self.inputs_ownership, &self.assigned_inputs)
                    && all_slots_filled(&self.outputs_ownership, &self.assigned_outputs);
                self.status = if filled {
                    TaskStatus::DataAssigned
                } else {
                    TaskStatus::Created
                };
                Ok(())
            },
            TaskEvent::Approve { caller } => {
                if self.status != TaskStatus::DataAssigned {
                    return Err(ErrorKind::InvalidTaskState);
                }
                if !self.participants.contains(caller) {
                    return Err(ErrorKind::PermissionDenied);
                }
                self.approved_users.insert(caller.clone());
                self.status = if self.participants.is_subset_of(&self.approved_users) {
                    TaskStatus::Approved
                } else {
                    TaskStatus::DataAssigned
                };
                Ok(())
            },
            TaskEvent::Invoke { caller } => {
                if self.status != TaskStatus::Approved {
                    return Err(ErrorKind::InvalidTaskState);
                }
                if !(*caller == self.creator) {
                    return Err(ErrorKind::PermissionDenied);
                }
                self.status = TaskStatus::Staged;
                Ok(())
            },
            TaskEvent::Pull { worker, now } => {
                if self.status != TaskStatus::Staged {
                    return Err(ErrorKind::InvalidTaskState);
                }
                match (*now).checked_add(LEASE_SECONDS) {
                    None => Err(ErrorKind::Internal),
                    Some(deadline) => {
                        self.status = TaskStatus::Running;
                        self.assigned_worker = Some(worker.clone());
                        self.lease_deadline = Some(deadline);
                        Ok(())
                    },
                }
            },
            TaskEvent::ResourceMissing => {
                if self.status != TaskStatus::Staged {
                    return Err(ErrorKind::InvalidTaskState);
                }
                self.status = TaskStatus::Failed;
                self.result = Some(failure(FailureReason::ResourceMissing));
                self.lease_deadline = None;
                Ok(())
            },
            TaskEvent::Heartbeat { worker } => {
                if self.status != TaskStatus::Running {
                    return Err(ErrorKind::InvalidTaskState);
                }
                if !is_worker(&self.assigned_worker, worker) {
                    return Err(ErrorKind::PermissionDenied);
                }
                let extended = match self.lease_deadline {
                    None => None,
                    Some(deadline) => deadline.checked_add(LEASE_SECONDS),
                };
                match extended {
                    None => Err(ErrorKind::Internal),
                    Some(deadline) => {
                        self.lease_deadline = Some(deadline);
                        Ok(())
                    },
                }
            },
            TaskEvent::Complete { worker, outcome } => {
                if self.status != TaskStatus::Running {
                    return Err(ErrorKind::InvalidTaskState);
                }
                if !is_worker(&self.assigned_worker, worker) {
                    return Err(ErrorKind::PermissionDenied);
                }
                self.status = match outcome {
                    TaskOutcome::Succeeded { .. } => TaskStatus::Finished,
                    TaskOutcome::Failed { .. } => TaskStatus::Failed,
                };
                self.result = Some(outcome.clone());
                self.lease_deadline = None;
                Ok(())
            },
            TaskEvent::Cancel { caller } => {
                if self.is_terminal() {
                    return Ok(());
                }
                if !(*caller == self.creator) {
                    return Err(ErrorKind::PermissionDenied);
                }
                self.status = TaskStatus::Canceled;
                self.lease_deadline = None;
                Ok(())
            },
            TaskEvent::LeaseExpired => {
                if self.status != TaskStatus::Running {
                    return Err(ErrorKind::InvalidTaskState);
                }
                self.status = TaskStatus::Failed;
                self.result = Some(failure(FailureReason::LeaseExpired));
                self.lease_deadline = None;
                Ok(())
            },
            TaskEvent::WorkerLost => {
                if self.status != TaskStatus::Running {
                    return Err(ErrorKind::InvalidTaskState);
                }
                self.status = TaskStatus::Failed;
                self.result = Some(failure(FailureReason::WorkerLost));
                self.lease_deadline = None;
                Ok(())
            },
        }
    }

    /// Whether the task meets the task invariant.
    pub fn meets_invariant(&self) -> (ok: bool)
        ensures
            ok == task_inv(self@),
    {
        let live = !self.is_terminal();
        let assigned = live && self.status != TaskStatus::Created;
        let approved = assigned && self.status != TaskStatus::DataAssigned;
        let running = self.status == TaskStatus::Running;
        let state_fits = match &self.result {
            None => self.status != TaskStatus::Finished && self.status != TaskStatus::Failed,
            Some(TaskOutcome::Succeeded { .. }) => self.status == TaskStatus::Finished,
            Some(TaskOutcome::Failed { .. }) => self.status == TaskStatus::Failed,
        };
        let lease_fits = if running {
            self.lease_deadline.is_some() && self.assigned_worker.is_some()
        } else {
            self.lease_deadline.is_none()
        };
        state_fits && lease_fits && self.participants.contains(&self.creator) && all_owners_within(
            &self.inputs_ownership,
            &self.participants,
        ) && all_owners_within(&self.outputs_ownership, &self.participants)
            && self.approved_users.is_subset_of(&self.participants) && all_bound_known(
            &self.inputs_ownership,
            &self.assigned_inputs,
        ) && all_bound_known(&self.outputs_ownership, &self.assigned_outputs) && (!assigned || (
        all_slots_filled(&self.inputs_ownership, &self.assigned_inputs) && all_slots_filled(
            &self.outputs_ownership,
            &self.assigned_outputs,
        ))) && (!approved || self.participants.is_subset_of(&self.approved_users))
    }

    /// Whether the task is in a state that it never leaves.
    pub fn is_terminal(&self) -> (terminal: bool)
        ensures
            terminal == crate::task::is_terminal(self.status),
    {
        self.status == TaskStatus::Finished || self.status == TaskStatus::Failed || self.status
            == TaskStatus::Canceled
    }
}

/// A copy of a map of strings.
pub fn clone_texts(map: &NameMap<String>) -> (copy: NameMap<String>)
    ensures
        texts_view(copy@) == texts_view(map@),
{
    let copy = map.clone();
    proof {
        lemma_bindings_agree(map.entries(), copy.entries(), |text: String| text@);
    }
    copy
}

/// A copy of an ownership map.
pub fn clone_ownership(map: &NameMap<NameSet>) -> (copy: NameMap<NameSet>)
    ensures
        ownership_view(copy@) == ownership_view(map@),
{
    let copy = map.clone();
    proof {
        lemma_bindings_agree(map.entries(), copy.entries(), |owners: NameSet| owners@);
    }
    copy
}

/// A copy of a map of identifiers.
pub fn clone_assignment(map: &NameMap<ExternalID>) -> (copy: NameMap<ExternalID>)
    ensures
        copy@ == map@,
{
    let copy = map.clone();
    proof {
        lemma_bindings_agree(map.entries(), copy.entries(), |id: ExternalID| id);
        assert(copy@ =~= copy@.map_values(|id: ExternalID| id));
        assert(map@ =~= map@.map_values(|id: ExternalID| id));
    }
    copy
}

/// A copy of a map of authentication tags.
pub fn clone_tags(map: &NameMap<FileAuthTag>) -> (copy: NameMap<FileAuthTag>)
    ensures
        copy@ == map@,
{
    let copy = map.clone();
    proof {
        lemma_bindings_agree(map.entries(), copy.entries(), |tag: FileAuthTag| tag);
        assert(copy@ =~= copy@.map_values(|tag: FileAuthTag| tag));
        assert(map@ =~= map@.map_values(|tag: FileAuthTag| tag));
    }
    copy
}

impl Clone for TaskOutcome {
    fn clone(&self) -> (copy: Self)
        ensures
            copy@ == self@,
    {
        match self {
            TaskOutcome::Succeeded { summary, tags } => TaskOutcome::Succeeded {
                summary: summary.clone(),
                tags: clone_tags(tags),
            },
            TaskOutcome::Failed { reason, detail } => TaskOutcome::Failed {
                reason: *reason,
                detail: detail.clone(),
            },
        }
    }
}

impl Clone for Task {
    fn clone(&self) -> (copy: Self)
        ensures
            copy@ == self@,
    {
        Task {
            id: self.id,
            creator: self.creator.clone(),
            function_id: self.function_id,
            function_arguments: clone_texts(&self.function_arguments),
            executor: self.executor,
            inputs_ownership: clone_ownership(&self.inputs_ownership),
            outputs_ownership: clone_ownership(&self.outputs_ownership),
            assigned_inputs: clone_assignment(&self.assigned_inputs),
            assigned_outputs: clone_assignment(&self.assigned_outputs),
            approved_users: self.approved_users.clone(),
            participants: self.participants.clone(),
            status: self.status,
            result: match &self.result {
                Some(outcome) => Some(outcome.clone()),
                None => None,
            },
            lease_deadline: self.lease_deadline,
            assigned_worker: match &self.assigned_worker {
                Some(worker) => Some(worker.clone()),
                None => None,
            },
        }
    }
}

} // verus!
