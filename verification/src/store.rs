//! The task store: the owner of the ordered task collection, its mutating
//! operations, and the encode/decode entry points of its persistence.

use vstd::prelude::*;
use crate::task::Task;
use crate::task::TaskView;
use crate::codec;

verus! {

// ---------------------------------------------------------------------------
// The mutations, as specification transitions.
// ---------------------------------------------------------------------------

/// Appending a freshly created task: pending, not yet finished.
pub open spec fn spec_add(
    ts: Seq<TaskView>,
    title: Seq<char>,
    body: Seq<char>,
    creation: Seq<char>,
) -> Seq<TaskView> {
    ts.push(
        TaskView { title, body, pending: true, creation_date: creation, completion_date: None },
    )
}

/// Removing the task at an index; an out-of-bounds index changes nothing.
pub open spec fn spec_remove(ts: Seq<TaskView>, i: int) -> Seq<TaskView> {
    if 0 <= i < ts.len() {
        ts.remove(i)
    } else {
        ts
    }
}

/// The one-way completion of the task at an index: a pending task stops
/// being pending and is stamped with the completion timestamp; an already
/// finished task, or an out-of-bounds index, changes nothing.
pub open spec fn spec_complete(ts: Seq<TaskView>, i: int, now: Seq<char>) -> Seq<TaskView> {
    if 0 <= i < ts.len() && ts[i].pending {
        ts.update(
            i,
            TaskView {
                title: ts[i].title,
                body: ts[i].body,
                pending: false,
                creation_date: ts[i].creation_date,
                completion_date: Some(now),
            },
        )
    } else {
        ts
    }
}

/// The task a single add request creates: title, body and creation
/// timestamp, pending and not yet finished.
pub open spec fn added_view(item: (Seq<char>, Seq<char>, Seq<char>)) -> TaskView {
    TaskView {
        title: item.0,
        body: item.1,
        pending: true,
        creation_date: item.2,
        completion_date: None,
    }
}

/// A run of add requests — (title, body, creation timestamp) each — applied
/// one after the other, as the coordinator serialises them.
pub open spec fn apply_adds(
    ts: Seq<TaskView>,
    items: Seq<(Seq<char>, Seq<char>, Seq<char>)>,
) -> Seq<TaskView>
    decreases items.len(),
{
    if items.len() == 0 {
        ts
    } else {
        apply_adds(spec_add(ts, items[0].0, items[0].1, items[0].2), items.skip(1))
    }
}

/// The tasks listed by `list_from`: those at indices up to and including
/// the bound. The bound is inclusive, preserving the historical reading of
/// the listing operation; see [`TaskManager::list_from`].
pub open spec fn spec_list_upto(ts: Seq<TaskView>, bound: int) -> Seq<TaskView> {
    if bound + 1 <= ts.len() {
        ts.take(bound + 1)
    } else {
        ts
    }
}

/// The finished tasks: the title and completion timestamp of every task
/// whose completion timestamp is present, in collection order.
pub open spec fn spec_finished(ts: Seq<TaskView>) -> Seq<(Seq<char>, Seq<char>)>
    decreases ts.len(),
{
    if ts.len() == 0 {
        Seq::empty()
    } else {
        (match ts[0].completion_date {
            Some(d) => seq![(ts[0].title, d)],
            None => Seq::empty(),
        }) + spec_finished(ts.skip(1))
    }
}

/// Pushing an element appends its view to the collection's view.
pub proof fn lemma_push_deep_view<T: DeepView>(before: Vec<T>, after: Vec<T>, t: T)
    requires
        after@ == before@.push(t),
    ensures
        after.deep_view() == before.deep_view().push(t.deep_view()),
{
    assert forall|k: int| 0 <= k < after@.len() implies after.deep_view()[k]
        == before.deep_view().push(t.deep_view())[k] by {
        if k < before@.len() {
            assert(after@[k] == before@[k]);
        } else {
            assert(after@[k] == t);
        }
    }
    assert(after.deep_view() =~= before.deep_view().push(t.deep_view()));
}

/// Inserting an element at the front prepends its view to the collection's
/// view.
pub proof fn lemma_insert_front_deep_view<T: DeepView>(before: Vec<T>, after: Vec<T>, t: T)
    requires
        after@ == before@.insert(0, t),
    ensures
        after.deep_view() == seq![t.deep_view()] + before.deep_view(),
{
    assert forall|k: int| 0 <= k < after@.len() implies after.deep_view()[k] == (seq![t.deep_view()]
        + before.deep_view())[k] by {
        if k == 0 {
            assert(after@[0] == t);
        } else {
            assert(after@[k] == before@[k - 1]);
        }
    }
    assert(after.deep_view() =~= seq![t.deep_view()] + before.deep_view());
}

// ---------------------------------------------------------------------------
// Outcomes and errors.
// ---------------------------------------------------------------------------

/// What a removal did: benign no-op outcomes are distinct from success.
#[derive(Clone, Copy, Debug, PartialEq, Eq, Structural)]
pub enum RemoveOutcome {
    /// The task at the index was removed.
    Removed,
    /// There was nothing to remove: the collection is empty.
    EmptyStore,
    /// There is no task at that index.
    OutOfBounds,
}

/// What a completion did: benign no-op outcomes are distinct from success.
#[derive(Clone, Copy, Debug, PartialEq, Eq, Structural)]
pub enum CompleteOutcome {
    /// The pending task at the index was marked finished and stamped.
    Completed,
    /// The task at the index was already finished; nothing changed.
    AlreadyFinished,
    /// There is no task at that index.
    InvalidIndex,
}

/// Persisted data exists but cannot be decoded, or a required field is
/// missing.
#[derive(Clone, Copy, Debug, PartialEq, Eq, Structural)]
pub struct FormatError;

impl FormatError {
    /// A description of the failure, for the operator's log.
    pub fn message(&self) -> (m: String)
        ensures
            m@ == "the saved task data cannot be decoded"@,
    {
        String::from_str("the saved task data cannot be decoded")
    }
}

// ---------------------------------------------------------------------------
// The store.
// ---------------------------------------------------------------------------

/// The owner of the ordered task collection.
#[derive(Debug)]
pub struct TaskManager {
    pub tasks: Vec<Task>,
}

impl DeepView for TaskManager {
    type V = Seq<TaskView>;

    open spec fn deep_view(&self) -> Seq<TaskView> {
        self.tasks.deep_view()
    }
}

impl TaskManager {
    /// The empty store: the state before anything was ever saved.
    pub fn default() -> (m: TaskManager)
        ensures
            m.deep_view() == Seq::<TaskView>::empty(),
    {
        let m = TaskManager { tasks: Vec::new() };
        proof {
            assert(m.deep_view() =~= Seq::<TaskView>::empty());
        }
        m
    }

    /// Appends a task at the end of the collection. Always succeeds in
    /// memory; making the change durable is the caller's affair.
    pub fn append(&mut self, task: Task)
        ensures
            final(self).deep_view() == old(self).deep_view().push(task@),
    {
        let ghost before = self.tasks;
        self.tasks.push(task);
        proof {
            let a = self.tasks;
            assert forall|k: int| 0 <= k < a.deep_view().len() implies a.deep_view()[k]
                == before.deep_view().push(task@)[k] by {
                if k < before@.len() {
                    assert(a@[k] == before@[k]);
                } else {
                    assert(a@[k] == task);
                }
            }
            assert(a.deep_view() =~= before.deep_view().push(task@));
        }
    }

    /// Appends a freshly built task with the given creation timestamp.
    pub fn add_task_with_creation(&mut self, title: String, body: String, creation_date: String)
        ensures
            final(self).deep_view() == spec_add(
                old(self).deep_view(),
                title@,
                body@,
                creation_date@,
            ),
    {
        let t = Task::with_creation_date(title, body, creation_date);
        self.append(t);
    }

    /// Appends a freshly built task, stamping the creation timestamp from
    /// the clock: some non-empty timestamp, not pinned down further.
    pub fn add_task(&mut self, title: String, body: String)
        ensures
            exists|creation: Seq<char>|
                #![auto]
                creation.len() > 0 && final(self).deep_view() == spec_add(
                    old(self).deep_view(),
                    title@,
                    body@,
                    creation,
                ),
    {
        let ghost title_view = title@;
        let ghost body_view = body@;
        let now = crate::ext::now_string();
        let ghost cw = now@;
        self.add_task_with_creation(title, body, now);
        proof {
            assert(cw.len() > 0 && self.deep_view() == spec_add(
                old(self).deep_view(),
                title_view,
                body_view,
                cw,
            ));
        }
    }

    /// Removes the task at the index, shifting later tasks down by one; an
    /// out-of-bounds index (or an empty store) is a benign no-op.
    pub fn remove_task(&mut self, index: usize) -> (r: RemoveOutcome)
        ensures
            final(self).deep_view() == spec_remove(old(self).deep_view(), index as int),
            r is Removed <==> index < old(self).deep_view().len(),
            r is EmptyStore <==> old(self).deep_view().len() == 0,
            r is OutOfBounds <==> (0 < old(self).deep_view().len() <= index),
    {
        if self.tasks.len() == 0 {
            RemoveOutcome::EmptyStore
        } else if index < self.tasks.len() {
            let ghost before = self.tasks;
            let _ = self.tasks.remove(index);
            proof {
                let a = self.tasks;
                assert forall|k: int| 0 <= k < a.deep_view().len() implies a.deep_view()[k]
                    == before.deep_view().remove(index as int)[k] by {
                    if k < index {
                        assert(a@[k] == before@[k]);
                    } else {
                        assert(a@[k] == before@[k + 1]);
                    }
                }
                assert(a.deep_view() =~= before.deep_view().remove(index as int));
            }
            RemoveOutcome::Removed
        } else {
            RemoveOutcome::OutOfBounds
        }
    }

    /// Marks the pending task at the index finished, stamping it with the
    /// given completion timestamp. An already finished task or an
    /// out-of-bounds index is a benign no-op: the transition is one-way.
    pub fn complete_task_with_timestamp(&mut self, index: usize, now: String) -> (r:
        CompleteOutcome)
        ensures
            final(self).deep_view() == spec_complete(old(self).deep_view(), index as int, now@),
            r is Completed <==> (index < old(self).deep_view().len() && old(self).deep_view()[
                index as int
            ].pending),
            r is AlreadyFinished <==> (index < old(self).deep_view().len() && !old(
                self,
            ).deep_view()[index as int].pending),
            r is InvalidIndex <==> index >= old(self).deep_view().len(),
    {
        if index < self.tasks.len() {
            if self.tasks[index].pending {
                let ghost before = self.tasks;
                let t = self.tasks.remove(index);
                let t2 = Task {
                    title: t.title,
                    body: t.body,
                    pending: false,
                    creation_date: t.creation_date,
                    completion_date: Some(now),
                };
                let ghost t2v = t2@;
                self.tasks.insert(index, t2);
                proof {
                    let a = self.tasks;
                    assert(a@ =~= before@.update(index as int, t2));
                    assert forall|k: int| 0 <= k < a.deep_view().len() implies a.deep_view()[k]
                        == before.deep_view().update(index as int, t2v)[k] by {
                        if k != index {
                            assert(a@[k] == before@[k]);
                        }
                    }
                    assert(a.deep_view() =~= before.deep_view().update(index as int, t2v));
                }
                CompleteOutcome::Completed
            } else {
                CompleteOutcome::AlreadyFinished
            }
        } else {
            CompleteOutcome::InvalidIndex
        }
    }

    /// Marks the pending task at the index finished, stamping the completion
    /// timestamp from the clock: some non-empty timestamp, not pinned down
    /// further. The outcome does not depend on the clock.
    pub fn complete_task(&mut self, index: usize) -> (r: CompleteOutcome)
        ensures
            exists|now: Seq<char>|
                #![auto]
                now.len() > 0 && final(self).deep_view() == spec_complete(
                    old(self).deep_view(),
                    index as int,
                    now,
                ),
            r is Completed <==> (index < old(self).deep_view().len() && old(self).deep_view()[
                index as int
            ].pending),
            r is AlreadyFinished <==> (index < old(self).deep_view().len() && !old(
                self,
            ).deep_view()[index as int].pending),
            r is InvalidIndex <==> index >= old(self).deep_view().len(),
    {
        let now = crate::ext::now_string();
        let ghost nw = now@;
        let r = self.complete_task_with_timestamp(index, now);
        proof {
            assert(nw.len() > 0 && self.deep_view() == spec_complete(
                old(self).deep_view(),
                index as int,
                nw,
            ));
        }
        r
    }

    /// Encodes the whole collection into its persisted textual form.
    pub fn encode_json(&self) -> (r: String)
        ensures
            r@ == codec::spec_encode(self.deep_view()),
    {
        codec::encode_to_string(&self.tasks)
    }

    /// Decodes a persisted text back into a store. Tasks missing the
    /// `completed` or `creation_date` field get the construction defaults
    /// (pending, and the given default timestamp); any other shortfall is a
    /// [`FormatError`].
    pub fn decode_json(s: &str, default_creation: &str) -> (r: Result<TaskManager, FormatError>)
        ensures
            match r {
                Ok(m) => codec::spec_decode(s@, default_creation@) == Some(m.deep_view()),
                Err(_) => codec::spec_decode(s@, default_creation@) is None,
            },
    {
        match codec::decode_from_str(s, default_creation) {
            Some(ts) => Ok(TaskManager { tasks: ts }),
            None => Err(FormatError),
        }
    }

    /// The tasks at indices up to and including `bound`, in order, as fresh
    /// copies. The bound is inclusive — `list_from(0)` yields the first task
    /// — preserving the behaviour the listing operation always had; the
    /// boundary reading is fixed here and covered by explicit tests.
    pub fn list_from(&self, bound: usize) -> (r: Vec<Task>)
        ensures
            r.deep_view() == spec_list_upto(self.deep_view(), bound as int),
    {
        let ghost dv = self.deep_view();
        let mut r: Vec<Task> = Vec::new();
        let mut i: usize = 0;
        let n = self.tasks.len();
        proof {
            assert(r.deep_view() =~= dv.take(0));
        }
        while i < n && i <= bound
            invariant
                n == self.tasks@.len(),
                i <= n,
                i as int <= bound as int + 1,
                dv == self.deep_view(),
                r.deep_view() == dv.take(i as int),
            decreases n - i,
        {
            let ghost before = r;
            let t = clone_task(&self.tasks[i]);
            let ghost tg = t;
            r.push(t);
            proof {
                assert(dv[i as int] == self.tasks@[i as int]@);
                lemma_push_deep_view(before, r, tg);
                assert(r.deep_view() =~= dv.take((i + 1) as int));
            }
            i = i + 1;
        }
        proof {
            if i <= bound {
                assert(dv.take(n as int) =~= dv);
            }
        }
        r
    }

    /// The title and completion timestamp of every finished task, in
    /// collection order.
    pub fn finished_tasks(&self) -> (r: Vec<(String, String)>)
        ensures
            r.deep_view() == spec_finished(self.deep_view()),
    {
        let r = collect_finished(&self.tasks, 0);
        proof {
            assert(self.deep_view().skip(0) =~= self.deep_view());
        }
        r
    }

    /// Builds a store from what was found at the storage location: nothing
    /// (the first run — an empty store, not an error), or a text to decode.
    pub fn from_saved(contents: Option<&str>, default_creation: &str) -> (r: Result<
        TaskManager,
        FormatError,
    >)
        ensures
            match contents {
                None => r is Ok && r->Ok_0.deep_view() == Seq::<TaskView>::empty(),
                Some(s) => match r {
                    Ok(m) => codec::spec_decode(s@, default_creation@) == Some(m.deep_view()),
                    Err(_) => codec::spec_decode(s@, default_creation@) is None,
                },
            },
    {
        match contents {
            None => Ok(TaskManager::default()),
            Some(s) => TaskManager::decode_json(s, default_creation),
        }
    }
}

/// A fresh copy of a task, field by field.
fn clone_task(t: &Task) -> (r: Task)
    ensures
        r@ == t@,
{
    Task {
        title: t.title.clone(),
        body: t.body.clone(),
        pending: t.pending,
        creation_date: t.creation_date.clone(),
        completion_date: match &t.completion_date {
            Some(d) => Some(d.clone()),
            None => None,
        },
    }
}

/// The finished tasks from position `i` on.
fn collect_finished(tasks: &Vec<Task>, i: usize) -> (r: Vec<(String, String)>)
    requires
        i <= tasks@.len(),
    ensures
        r.deep_view() == spec_finished(tasks.deep_view().skip(i as int)),
    decreases tasks@.len() - i,
{
    let ghost dv = tasks.deep_view();
    if i < tasks.len() {
        let rest = collect_finished(tasks, i + 1);
        proof {
            assert(dv.skip(i as int).skip(1) =~= dv.skip((i + 1) as int));
            assert(dv.skip(i as int)[0] == dv[i as int]);
            assert(dv[i as int] == tasks@[i as int]@);
        }
        match &tasks[i].completion_date {
            Some(d) => {
                let entry = (tasks[i].title.clone(), d.clone());
                let ghost ev = entry;
                let mut r = rest;
                let ghost before = r;
                r.insert(0, entry);
                proof {
                    lemma_insert_front_deep_view(before, r, ev);
                    assert(ev.deep_view() == (dv[i as int].title, dv[i as int].completion_date->0));
                    assert(r.deep_view() =~= spec_finished(dv.skip(i as int)));
                }
                r
            },
            None => {
                proof {
                    assert(rest.deep_view() =~= spec_finished(dv.skip(i as int)));
                }
                rest
            },
        }
    } else {
        let r: Vec<(String, String)> = Vec::new();
        proof {
            assert(dv.skip(i as int).len() == 0);
            assert(r.deep_view() =~= spec_finished(dv.skip(i as int)));
        }
        r
    }
}

} // verus!
