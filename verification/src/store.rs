//! The task store: the single source of truth for task state.
//!
//! The store is an ordered sequence of task records mutated only through the
//! operations below. A task's id is its current index, so `remove_at` shifts
//! every later id down by one — callers must treat ids as valid only until
//! the next removal. The store itself performs no locking; the process that
//! shares one store across concurrent request handlers wraps it in a mutual
//! exclusion primitive and serializes the four operations through it.

use vstd::prelude::*;

use crate::task::Task;
use crate::task::TaskModel;

verus! {

/// The model of a sequence of task records: the sequence of their models.
pub open spec fn tasks_view(ts: Seq<Task>) -> Seq<TaskModel> {
    ts.map_values(|t: Task| t@)
}

/// An ordered collection of tasks addressed by index.
pub struct TaskStore {
    tasks: Vec<Task>,
}

impl View for TaskStore {
    type V = Seq<TaskModel>;

    closed spec fn view(&self) -> Seq<TaskModel> {
        tasks_view(self.tasks@)
    }
}

impl TaskStore {
    /// A store starts empty; it holds nothing across process restarts.
    pub fn new() -> (s: Self)
        ensures
            s@ == Seq::<TaskModel>::empty(),
    {
        Self { tasks: Vec::new() }
    }

    /// The number of tasks currently held.
    pub fn len(&self) -> (n: usize)
        ensures
            n == self@.len(),
    {
        self.tasks.len()
    }

    /// A copy of the current sequence of tasks, in insertion order. The copy
    /// shares nothing with the store: mutating the store later does not change
    /// it, nor can a holder of the copy reach into the store.
    pub fn snapshot(&self) -> (snap: Vec<Task>)
        ensures
            tasks_view(snap@) == self@,
    {
        let mut snap: Vec<Task> = Vec::new();
        let mut i: usize = 0;
        while i < self.tasks.len()
            invariant
                i <= self.tasks.len(),
                snap@.len() == i,
                forall|j: int| 0 <= j < i ==> snap@[j]@ == self.tasks@[j]@,
            decreases self.tasks.len() - i,
        {
            snap.push(self.tasks[i].clone());
            i += 1;
        }
        proof {
            assert forall|j: int| 0 <= j < snap@.len() implies tasks_view(snap@)[j] == tasks_view(
                self.tasks@,
            )[j] by {}
            assert(tasks_view(snap@) =~= tasks_view(self.tasks@));
        }
        snap
    }

    /// Adds `task` at the end of the sequence; its id is the previous length.
    /// Never fails. Returns the updated snapshot.
    pub fn append(&mut self, task: Task) -> (snap: Vec<Task>)
        ensures
            final(self)@ == old(self)@.push(task@),
            tasks_view(snap@) == final(self)@,
    {
        self.tasks.push(task);
        proof {
            assert(tasks_view(self.tasks@) =~= tasks_view(old(self).tasks@).push(self.tasks@.last()@));
        }
        self.snapshot()
    }

    /// Overwrites the record at `id` wholesale — both message and done flag —
    /// when `id` is in range, leaving every other record and the length
    /// unchanged. An out-of-range `id` leaves the store exactly as it was and
    /// reports `found == false`. Returns the (possibly unchanged) snapshot.
    pub fn replace_at(&mut self, id: usize, task: Task) -> (r: (Vec<Task>, bool))
        ensures
            r.1 <==> id < old(self)@.len(),
            id < old(self)@.len() ==> final(self)@ == old(self)@.update(id as int, task@),
            id >= old(self)@.len() ==> final(self)@ == old(self)@,
            id < old(self)@.len() ==> final(self)@.len() == old(self)@.len()
                && final(self)@[id as int] == task@
                && (forall|j: int| 0 <= j < old(self)@.len() && j != id ==> final(self)@[j] == old(self)@[j]),
            tasks_view(r.0@) == final(self)@,
    {
        let found = id < self.tasks.len();
        if found {
            self.tasks[id] = task;
            proof {
                assert(tasks_view(self.tasks@) =~= tasks_view(old(self).tasks@).update(id as int, self.tasks@[id as int]@));
            }
        }
        let snap = self.snapshot();
        (snap, found)
    }

    /// Removes the record at `id` when `id` is in range: the length drops by
    /// exactly one, records before `id` keep their places, and every record
    /// after `id` shifts down by one index with its fields intact. An
    /// out-of-range `id` is a no-op reported as `found == false`. Returns the
    /// (possibly unchanged) snapshot.
    pub fn remove_at(&mut self, id: usize) -> (r: (Vec<Task>, bool))
        ensures
            r.1 <==> id < old(self)@.len(),
            id < old(self)@.len() ==> final(self)@ == old(self)@.remove(id as int),
            id >= old(self)@.len() ==> final(self)@ == old(self)@,
            id < old(self)@.len() ==> final(self)@.len() == old(self)@.len() - 1
                && (forall|j: int| 0 <= j < id ==> final(self)@[j] == old(self)@[j])
                && (forall|j: int| id <= j < final(self)@.len() ==> final(self)@[j] == old(self)@[j + 1]),
            tasks_view(r.0@) == final(self)@,
    {
        let found = id < self.tasks.len();
        if found {
            self.tasks.remove(id);
            proof {
                assert(tasks_view(self.tasks@) =~= tasks_view(old(self).tasks@).remove(id as int));
            }
        }
        let snap = self.snapshot();
        (snap, found)
    }
}

/// The store state after a serialized run of `append` calls: starting from
/// `init`, the tasks of `ts` are appended one at a time, in order. Each step
/// is exactly what `TaskStore::append` ensures of a single call, so this
/// function models any sequence of appends whose executions do not overlap —
/// in particular the order in which a mutual exclusion boundary serializes
/// concurrent callers.
pub open spec fn append_run(init: Seq<TaskModel>, ts: Seq<TaskModel>) -> Seq<TaskModel>
    decreases ts.len(),
{
    if ts.len() == 0 {
        init
    } else {
        append_run(init.push(ts[0]), ts.drop_first())
    }
}

/// Law: a run of appends adds exactly the appended tasks, at the end, in call
/// order. Hence the snapshot after the run has the length of the store before
/// it plus the number of appends.
pub proof fn lemma_append_run(init: Seq<TaskModel>, ts: Seq<TaskModel>)
    ensures
        append_run(init, ts) == init + ts,
        append_run(init, ts).len() == init.len() + ts.len(),
    decreases ts.len(),
{
    if ts.len() == 0 {
        assert(append_run(init, ts) =~= init + ts);
    } else {
        lemma_append_run(init.push(ts[0]), ts.drop_first());
        assert(init.push(ts[0]) + ts.drop_first() =~= init + ts);
    }
}

/// Law: when concurrent callers issue `append` calls that the store's mutual
/// exclusion boundary serializes into some order `ts`, the final snapshot of
/// a store that started empty is exactly `ts`: its length is the number of
/// appends, and no entry is lost or duplicated — the multiset of records in
/// the snapshot is the multiset of records appended.
pub proof fn lemma_serialized_appends(ts: Seq<TaskModel>)
    ensures
        append_run(Seq::<TaskModel>::empty(), ts) == ts,
        append_run(Seq::<TaskModel>::empty(), ts).len() == ts.len(),
        append_run(Seq::<TaskModel>::empty(), ts).to_multiset() == ts.to_multiset(),
{
    lemma_append_run(Seq::<TaskModel>::empty(), ts);
    assert(Seq::<TaskModel>::empty() + ts =~= ts);
}

} // verus!
