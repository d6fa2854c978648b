//! The task record: one unit of work, with a one-way pending-to-finished
//! transition.

use vstd::prelude::*;

verus! {

/// Mathematical model of a [`Task`]: every field as a plain sequence value.
pub struct TaskView {
    pub title: Seq<char>,
    pub body: Seq<char>,
    /// `true` while the task is still outstanding. Persisted under the key
    /// `completed` for compatibility with existing saved files, whose flag
    /// historically carried this inverted meaning.
    pub pending: bool,
    pub creation_date: Seq<char>,
    pub completion_date: Option<Seq<char>>,
}

/// One unit of work.
#[derive(Clone, Debug, PartialEq)]
pub struct Task {
    pub title: String,
    pub body: String,
    /// `true` while the task is still outstanding (not yet finished).
    /// Stored in the persisted form under the key `completed`, which
    /// historically carried this inverted meaning; the default at creation
    /// and for old files missing the field is `true`.
    pub pending: bool,
    /// Set once at construction, immutable thereafter.
    pub creation_date: String,
    /// Absent until the task transitions to finished; set exactly once.
    pub completion_date: Option<String>,
}

/// The default for the pending flag, both at construction and when a saved
/// file predates the field: the task is still outstanding.
pub fn default_completed() -> (b: bool)
    ensures
        b == true,
{
    true
}

impl DeepView for Task {
    type V = TaskView;

    open spec fn deep_view(&self) -> TaskView {
        self.view()
    }
}

impl View for Task {
    type V = TaskView;

    open spec fn view(&self) -> TaskView {
        TaskView {
            title: self.title@,
            body: self.body@,
            pending: self.pending,
            creation_date: self.creation_date@,
            completion_date: match self.completion_date {
                Some(d) => Some(d@),
                None => None,
            },
        }
    }
}

impl TaskView {
    /// A task is well formed when its completion timestamp is present
    /// exactly when it is no longer pending.
    pub open spec fn wf(self) -> bool {
        self.pending <==> self.completion_date is None
    }
}

impl Task {
    /// Builds a task from its title and body, stamping the creation
    /// timestamp from the clock: outstanding, with no completion timestamp.
    pub fn new(title: String, body: String) -> (t: Task)
        ensures
            t@.title == title@,
            t@.body == body@,
            t@.pending == true,
            t@.completion_date is None,
            t@.creation_date.len() > 0,
            t@.wf(),
    {
        let creation_date = crate::ext::now_string();
        Task::with_creation_date(title, body, creation_date)
    }

    /// Builds a task from its title, body and creation timestamp:
    /// outstanding, with no completion timestamp.
    pub fn with_creation_date(title: String, body: String, creation_date: String) -> (t: Task)
        ensures
            t@ == (TaskView {
                title: title@,
                body: body@,
                pending: true,
                creation_date: creation_date@,
                completion_date: None,
            }),
            t@.wf(),
    {
        Task { title, body, pending: true, creation_date, completion_date: None }
    }
}

} // verus!
