//! The textual enumerations that the listing operations expose: one line per
//! task, with the task's collection index in decimal. The text is defined
//! here as specification functions and the executable renderers are proved
//! against them.

use vstd::prelude::*;
use crate::codec::encode_bool;
use crate::codec::chars_to_string;
use crate::codec::hex_char;
use crate::codec::hex_digit;
use crate::codec::push_lit;
use crate::store::TaskManager;
use crate::task::Task;
use crate::task::TaskView;

verus! {

/// The decimal digits of a number, most significant first.
pub open spec fn dec_str(n: nat) -> Seq<char>
    decreases n,
{
    if n < 10 {
        seq![hex_char(n as int)]
    } else {
        dec_str(n / 10) + seq![hex_char((n % 10) as int)]
    }
}

/// One line of the task listing: index, title, body, pending flag and
/// creation timestamp.
pub open spec fn list_line(i: nat, t: TaskView) -> Seq<char> {
    "Task "@ + dec_str(i) + ": Title: "@ + t.title + ", Body: "@ + t.body + ", Pending: "@
        + encode_bool(t.pending) + ", created at: "@ + t.creation_date + seq!['\n']
}

/// The listing lines for the tasks at indices `i` up to (not including)
/// `end`.
pub open spec fn render_upto(ts: Seq<TaskView>, i: nat, end: nat) -> Seq<char>
    decreases end - i,
{
    if i < end && i < ts.len() {
        list_line(i, ts[i as int]) + render_upto(ts, i + 1, end)
    } else {
        Seq::empty()
    }
}

/// The whole task listing up to and including the bound (the inclusive
/// reading fixed by [`crate::store::spec_list_upto`]).
pub open spec fn spec_list_text(ts: Seq<TaskView>, bound: int) -> Seq<char> {
    render_upto(ts, 0, (bound + 1) as nat)
}

/// One line of the finished-task listing: collection index, title and
/// completion timestamp.
pub open spec fn finished_line(i: nat, title: Seq<char>, completion: Seq<char>) -> Seq<char> {
    "Task: "@ + dec_str(i) + ", title: "@ + title + ", Completion Date: "@ + completion
        + seq!['\n']
}

/// The finished-task lines from position `i` on: one line per task whose
/// completion timestamp is present, under its collection index.
pub open spec fn spec_finished_text(ts: Seq<TaskView>, i: nat) -> Seq<char>
    decreases ts.len() - i,
{
    if i < ts.len() {
        (match ts[i as int].completion_date {
            Some(d) => finished_line(i, ts[i as int].title, d),
            None => Seq::empty(),
        }) + spec_finished_text(ts, i + 1)
    } else {
        Seq::empty()
    }
}

/// Writes the decimal digits of a number.
fn push_decimal(out: &mut Vec<char>, n: usize)
    ensures
        final(out)@ == old(out)@ + dec_str(n as nat),
    decreases n,
{
    if n < 10 {
        let d = hex_digit(n as u32);
        out.push(d);
        proof {
            assert(out@ =~= old(out)@ + dec_str(n as nat));
        }
    } else {
        push_decimal(out, n / 10);
        let d = hex_digit((n % 10) as u32);
        out.push(d);
        proof {
            assert(out@ =~= old(out)@ + dec_str(n as nat));
        }
    }
}

fn push_list_lines(out: &mut Vec<char>, tasks: &Vec<Task>, i: usize, end: usize)
    requires
        i <= end,
        end <= tasks@.len(),
    ensures
        final(out)@ == old(out)@ + render_upto(tasks.deep_view(), i as nat, end as nat),
    decreases end - i,
{
    let ghost dv = tasks.deep_view();
    proof {
        assert(dv.len() == tasks@.len());
    }
    if i < end {
        proof {
            assert(dv[i as int] == tasks@[i as int]@);
        }
        push_lit(out, "Task ");
        push_decimal(out, i);
        push_lit(out, ": Title: ");
        push_lit(out, tasks[i].title.as_str());
        push_lit(out, ", Body: ");
        push_lit(out, tasks[i].body.as_str());
        push_lit(out, ", Pending: ");
        if tasks[i].pending {
            push_lit(out, "true");
        } else {
            push_lit(out, "false");
        }
        push_lit(out, ", created at: ");
        push_lit(out, tasks[i].creation_date.as_str());
        out.push('\n');
        proof {
            assert(out@ =~= old(out)@ + list_line(i as nat, dv[i as int]));
        }
        push_list_lines(out, tasks, i + 1, end);
        proof {
            assert(out@ =~= old(out)@ + render_upto(dv, i as nat, end as nat));
        }
    } else {
        proof {
            assert(out@ =~= old(out)@ + render_upto(dv, i as nat, end as nat));
        }
    }
}

fn push_finished_lines(out: &mut Vec<char>, tasks: &Vec<Task>, i: usize)
    requires
        i <= tasks@.len(),
    ensures
        final(out)@ == old(out)@ + spec_finished_text(tasks.deep_view(), i as nat),
    decreases tasks@.len() - i,
{
    let ghost dv = tasks.deep_view();
    proof {
        assert(dv.len() == tasks@.len());
    }
    if i < tasks.len() {
        proof {
            assert(dv[i as int] == tasks@[i as int]@);
        }
        match &tasks[i].completion_date {
            Some(d) => {
                push_lit(out, "Task: ");
                push_decimal(out, i);
                push_lit(out, ", title: ");
                push_lit(out, tasks[i].title.as_str());
                push_lit(out, ", Completion Date: ");
                push_lit(out, d.as_str());
                out.push('\n');
                proof {
                    assert(out@ =~= old(out)@ + finished_line(
                        i as nat,
                        dv[i as int].title,
                        dv[i as int].completion_date->0,
                    ));
                }
            },
            None => {},
        }
        push_finished_lines(out, tasks, i + 1);
        proof {
            assert(out@ =~= old(out)@ + spec_finished_text(dv, i as nat));
        }
    } else {
        proof {
            assert(out@ =~= old(out)@ + spec_finished_text(dv, i as nat));
        }
    }
}

impl TaskManager {
    /// The textual enumeration of the tasks at indices up to and including
    /// the bound, one line each.
    pub fn list_tasks_text(&self, bound: usize) -> (r: String)
        ensures
            r@ == spec_list_text(self.deep_view(), bound as int),
    {
        let n = self.tasks.len();
        let end = if bound >= n {
            n
        } else {
            bound + 1
        };
        let mut out: Vec<char> = Vec::new();
        push_list_lines(&mut out, &self.tasks, 0, end);
        proof {
            if bound >= n {
                lemma_render_upto_saturates(self.deep_view(), 0, n as nat, (bound + 1) as nat);
            }
        }
        chars_to_string(&out)
    }

    /// The textual enumeration of the finished tasks, one line each, with
    /// titles and completion timestamps.
    pub fn finished_tasks_text(&self) -> (r: String)
        ensures
            r@ == spec_finished_text(self.deep_view(), 0),
    {
        let mut out: Vec<char> = Vec::new();
        push_finished_lines(&mut out, &self.tasks, 0);
        chars_to_string(&out)
    }
}

/// Rendering up to a bound at or past the end of the collection renders the
/// whole collection: the bound only ever cuts the listing short.
proof fn lemma_render_upto_saturates(ts: Seq<TaskView>, i: nat, end1: nat, end2: nat)
    requires
        ts.len() <= end1,
        ts.len() <= end2,
        i <= ts.len(),
    ensures
        render_upto(ts, i, end1) == render_upto(ts, i, end2),
    decreases ts.len() - i,
{
    if i < ts.len() {
        lemma_render_upto_saturates(ts, i + 1, end1, end2);
    }
}

} // verus!
