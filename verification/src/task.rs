//! The task type, its mathematical value, and its display rule.

use vstd::prelude::*;
use vstd::string::*;

verus! {

/// A single to-do item: identity, text, and completion flag.
#[derive(Clone, Debug)]
pub struct Task {
    pub id: u32,
    pub description: String,
    pub completed: bool,
}

/// The mathematical value of a task: the id, the characters of the
/// description, and the completion flag.
#[verifier::ext_equal]
pub struct TaskV {
    pub id: u32,
    pub description: Seq<char>,
    pub completed: bool,
}

impl View for Task {
    type V = TaskV;

    open spec fn view(&self) -> TaskV {
        TaskV { id: self.id, description: self.description@, completed: self.completed }
    }
}

/// The values of a sequence of tasks, in order.
pub open spec fn views(ts: Seq<Task>) -> Seq<TaskV> {
    ts.map_values(|t: Task| t@)
}

/// Marking complete at the value level: the flag becomes true, nothing else moves.
pub open spec fn spec_mark(t: TaskV) -> TaskV {
    TaskV { completed: true, ..t }
}

/// The display line of a task: `[x] ` or `[ ] ` followed by the description.
pub open spec fn spec_display(t: TaskV) -> Seq<char> {
    (if t.completed {
        seq!['[', 'x', ']', ' ']
    } else {
        seq!['[', ' ', ']', ' ']
    }) + t.description
}

impl Task {
    /// A fresh task starts not completed and keeps the given id and text.
    pub fn new(id: u32, description: String) -> (t: Task)
        ensures
            t@ == (TaskV { id: id, description: description@, completed: false }),
    {
        Task { id, description, completed: false }
    }

    /// Sets the completion flag; id and description are untouched.  Running
    /// this twice gives the same task as running it once.
    pub fn mark_completed(&mut self)
        ensures
            final(self)@ == spec_mark(old(self)@),
    {
        self.completed = true;
    }

    /// Renders the task exactly as `list` prints it.
    pub fn display(&self) -> (r: String)
        ensures
            r@ == spec_display(self@),
    {
        let mut out = String::new();
        if self.completed {
            out.append("[x] ");
        } else {
            out.append("[ ] ");
        }
        out.append(self.description.as_str());
        proof {
            reveal_strlit("[x] ");
            reveal_strlit("[ ] ");
            assert(r#"[x] "#@ =~= seq!['[', 'x', ']', ' ']);
            assert(r#"[ ] "#@ =~= seq!['[', ' ', ']', ' ']);
            assert(out@ =~= spec_display(self@));
        }
        out
    }
}

/// The values of a sequence with one task appended.
pub proof fn lemma_views_push(ts: Seq<Task>, t: Task)
    ensures
        views(ts.push(t)) == views(ts).push(t@),
{
    assert(views(ts.push(t)) =~= views(ts).push(t@));
}

/// Marking a task complete is idempotent: a second mark changes nothing.
pub proof fn lemma_mark_idempotent(t: TaskV)
    ensures
        spec_mark(spec_mark(t)) == spec_mark(t),
{
}

} // verus!
