//! The store's operations: loading from a document, adding, listing,
//! completing, and the command dispatch with its exact messages.

use vstd::prelude::*;
use vstd::string::*;
use crate::chars::{dec_rep, is_digit, digit_val};
use crate::parse::{parse_doc, parse_tasks};
use crate::render::push_dec;
use crate::strutil::{str_chars, str_eq};
use crate::task::{Task, TaskV, views, spec_mark, spec_display, lemma_views_push};

verus! {

/// What loading the persisted file's content gives: the store to start from,
/// and whether unreadable content had to be thrown away with a warning.
pub struct LoadResult {
    pub tasks: Vec<Task>,
    pub warned: bool,
}

/// The store a file's content stands for.  No file: an empty store, no
/// warning.  A document of the expected shape: exactly its tasks, no
/// warning.  Anything else: an empty store and a warning — never a failure.
pub fn tasks_from_content(content: Option<&str>) -> (r: LoadResult)
    ensures
        match content {
            None => views(r.tasks@) == Seq::<TaskV>::empty() && !r.warned,
            Some(s) => match parse_doc(s@) {
                Some(tvs) => views(r.tasks@) == tvs && !r.warned,
                None => views(r.tasks@) == Seq::<TaskV>::empty() && r.warned,
            },
        },
{
    proof {
        assert(views(Seq::<Task>::empty()) =~= Seq::<TaskV>::empty());
    }
    match content {
        None => LoadResult { tasks: Vec::new(), warned: false },
        Some(s) => {
            let cs = str_chars(s);
            match parse_tasks(&cs) {
                Some(ts) => LoadResult { tasks: ts, warned: false },
                None => LoadResult { tasks: Vec::new(), warned: true },
            }
        },
    }
}

/// Folding decimal digits left to right, failing on a character that is not
/// a digit or a value that does not fit in 32 bits.
pub open spec fn digits_fold(s: Seq<char>, i: int, acc: u32) -> Option<u32>
    decreases s.len() - i,
{
    if i < 0 || i >= s.len() {
        Some(acc)
    } else if !is_digit(s[i]) {
        None
    } else if acc * 10 + digit_val(s[i]) <= u32::MAX {
        digits_fold(s, i + 1, (acc * 10 + digit_val(s[i])) as u32)
    } else {
        None
    }
}

/// The value the `complete` argument names, as the standard decimal parse
/// reads it: an optional leading plus sign, then one or more digits, with a
/// value that fits in 32 bits.
pub open spec fn spec_parse_u32(s: Seq<char>) -> Option<u32> {
    let start: int = if s.len() > 0 && s[0] == '+' {
        1
    } else {
        0
    };
    if s.len() <= start {
        None
    } else {
        digits_fold(s, start, 0)
    }
}

/// Parses the id argument; exactly the strings `spec_parse_u32` accepts.
pub fn parse_id(s: &str) -> (r: Option<u32>)
    ensures
        r == spec_parse_u32(s@),
{
    let n = s.unicode_len();
    let start: usize = if n > 0 && s.get_char(0) == '+' {
        1
    } else {
        0
    };
    if n <= start {
        return None;
    }
    let mut acc: u32 = 0;
    let mut i: usize = start;
    while i < n
        invariant
            start <= i <= n,
            n == s@.len(),
            n > start,
            spec_parse_u32(s@) == digits_fold(s@, i as int, acc),
        decreases n - i,
    {
        match crate::chars::digit_of(s.get_char(i)) {
            Some(d) => {
                let w: u64 = (acc as u64) * 10 + (d as u64);
                if w <= u32::MAX as u64 {
                    acc = w as u32;
                    i = i + 1;
                } else {
                    return None;
                }
            },
            None => {
                return None;
            },
        }
    }
    Some(acc)
}

/// Appends a fresh task: its id is the count of tasks at creation, its flag
/// starts false.  An empty description is rejected and nothing changes.
pub fn add_task(tasks: &mut Vec<Task>, description: String) -> (added: bool)
    requires
        old(tasks)@.len() <= u32::MAX as nat,
    ensures
        added == (description@.len() > 0),
        added ==> views(final(tasks)@) == views(old(tasks)@).push(
            TaskV {
                id: old(tasks)@.len() as u32,
                description: description@,
                completed: false,
            },
        ),
        !added ==> final(tasks)@ == old(tasks)@,
{
    if description.as_str().unicode_len() == 0 {
        return false;
    }
    let id = tasks.len() as u32;
    let t = Task::new(id, description);
    proof {
        lemma_views_push(tasks@, t);
    }
    tasks.push(t);
    true
}

/// Marks every task whose id matches; nothing else moves, and whether any
/// matched is reported.  The scan covers the whole store.
pub fn complete_task(tasks: &mut Vec<Task>, id: u32) -> (found: bool)
    ensures
        final(tasks)@.len() == old(tasks)@.len(),
        forall|j: int|
            0 <= j < old(tasks)@.len() ==> final(tasks)@[j]@ == (if old(tasks)@[j]@.id == id {
                spec_mark(old(tasks)@[j]@)
            } else {
                old(tasks)@[j]@
            }),
        found == (exists|j: int| 0 <= j < old(tasks)@.len() && old(tasks)@[j]@.id == id),
        !found ==> final(tasks)@ == old(tasks)@,
{
    let mut found = false;
    let n = tasks.len();
    let mut i: usize = 0;
    while i < n
        invariant
            i <= n,
            n == tasks@.len(),
            tasks@.len() == old(tasks)@.len(),
            forall|j: int| i <= j < n ==> tasks@[j] == old(tasks)@[j],
            forall|j: int|
                0 <= j < i ==> tasks@[j]@ == (if old(tasks)@[j]@.id == id {
                    spec_mark(old(tasks)@[j]@)
                } else {
                    old(tasks)@[j]@
                }),
            found == (exists|j: int| 0 <= j < i && old(tasks)@[j]@.id == id),
            !found ==> tasks@ == old(tasks)@,
        decreases n - i,
    {
        if tasks[i].id == id {
            tasks[i].mark_completed();
            found = true;
        }
        i = i + 1;
    }
    found
}

/// The display lines of a store, in stored order.
pub open spec fn display_lines(ts: Seq<TaskV>) -> Seq<Seq<char>> {
    ts.map_values(|t: TaskV| spec_display(t))
}

/// The character sequences of a sequence of strings.
pub open spec fn line_views(ls: Seq<String>) -> Seq<Seq<char>> {
    ls.map_values(|s: String| s@)
}

/// One display line per task, exactly as `list` prints them.
pub fn list_lines(tasks: &Vec<Task>) -> (r: Vec<String>)
    ensures
        line_views(r@) == display_lines(views(tasks@)),
{
    let mut out: Vec<String> = Vec::new();
    let n = tasks.len();
    let mut i: usize = 0;
    while i < n
        invariant
            i <= n,
            n == tasks@.len(),
            out@.len() == i,
            forall|j: int| 0 <= j < i ==> out@[j]@ == spec_display(tasks@[j]@),
        decreases n - i,
    {
        let line = tasks[i].display();
        out.push(line);
        i = i + 1;
    }
    proof {
        assert(line_views(out@) =~= display_lines(views(tasks@)));
    }
    out
}

/// The id scheme of this store: an id is the count of tasks at its creation,
/// so in a store grown only by `add` every id is its position.
pub open spec fn positional_ids(ts: Seq<TaskV>) -> bool {
    forall|j: int| 0 <= j < ts.len() ==> ts[j].id as int == j
}

/// Positional ids are unique within the store.
pub proof fn lemma_positional_ids_unique(ts: Seq<TaskV>)
    requires
        positional_ids(ts),
    ensures
        forall|j: int, k: int|
            0 <= j < ts.len() && 0 <= k < ts.len() && j != k ==> ts[j].id != ts[k].id,
{
}

/// `add` keeps the id scheme: the fresh task's id is the old count.
pub proof fn lemma_add_keeps_positional_ids(ts: Seq<TaskV>, d: Seq<char>)
    requires
        positional_ids(ts),
        ts.len() <= u32::MAX as nat,
    ensures
        positional_ids(
            ts.push(TaskV { id: ts.len() as u32, description: d, completed: false }),
        ),
{
}

/// `complete` keeps the id scheme: it changes no id.
pub proof fn lemma_complete_keeps_positional_ids(old_ts: Seq<TaskV>, new_ts: Seq<TaskV>, id: u32)
    requires
        positional_ids(old_ts),
        new_ts.len() == old_ts.len(),
        forall|j: int|
            0 <= j < old_ts.len() ==> new_ts[j] == (if old_ts[j].id == id {
                spec_mark(old_ts[j])
            } else {
                old_ts[j]
            }),
    ensures
        positional_ids(new_ts),
{
}

/// The words of the arguments from position `i` up to `j`, joined with
/// single spaces: the description `add` is given.
pub open spec fn join_range(a: Seq<Seq<char>>, i: int, j: int) -> Seq<char>
    decreases j - i,
{
    if i < 0 || i >= j {
        Seq::empty()
    } else if i == j - 1 {
        a[i]
    } else {
        a[i] + seq![' '] + join_range(a, i + 1, j)
    }
}

/// The character sequences of the argument strings.
pub open spec fn arg_views(args: Seq<String>) -> Seq<Seq<char>> {
    args.map_values(|s: String| s@)
}

/// Joining one more word appends a space and the word.
proof fn lemma_join_snoc(a: Seq<Seq<char>>, i: int, k: int)
    requires
        0 <= i < k,
    ensures
        join_range(a, i, k + 1) == join_range(a, i, k) + seq![' '] + a[k],
    decreases k - i,
{
    if i + 1 < k {
        lemma_join_snoc(a, i + 1, k);
        assert(a[i] + seq![' '] + (join_range(a, i + 1, k) + seq![' '] + a[k]) =~= (a[i]
            + seq![' '] + join_range(a, i + 1, k)) + seq![' '] + a[k]);
    } else {
        assert(join_range(a, i + 1, k + 1) == a[k]);
        assert(join_range(a, i, k) == a[i]);
    }
}

pub open spec fn msg_no_task() -> Seq<char> {
    "Please provide a task to add."@
}

pub open spec fn msg_added(d: Seq<char>) -> Seq<char> {
    "Added task: "@ + d
}

pub open spec fn msg_invalid_id() -> Seq<char> {
    "Invalid id provided."@
}

pub open spec fn msg_marked(id: u32) -> Seq<char> {
    "Task "@ + dec_rep(id) + " marked as complete."@
}

pub open spec fn msg_not_found(id: u32) -> Seq<char> {
    "Task "@ + dec_rep(id) + " could not be found."@
}

pub open spec fn usage_lines() -> Seq<Seq<char>> {
    seq![
        "Invalid or missing command."@,
        "Usage:"@,
        "  add <task>     - Add a new task"@,
        "  list           - List all tasks"@,
        "  complete <id>  - Mark a task as complete"@,
    ]
}

/// What one invocation prints, and whether the store must be written back.
pub struct CmdResult {
    pub lines: Vec<String>,
    pub save: bool,
}

/// The lines printed for a missing or unknown command.
fn usage_result() -> (r: CmdResult)
    ensures
        line_views(r.lines@) == usage_lines(),
        !r.save,
{
    let mut lines: Vec<String> = Vec::new();
    lines.push("Invalid or missing command.".to_owned());
    lines.push("Usage:".to_owned());
    lines.push("  add <task>     - Add a new task".to_owned());
    lines.push("  list           - List all tasks".to_owned());
    lines.push("  complete <id>  - Mark a task as complete".to_owned());
    proof {
        assert(line_views(lines@) =~= usage_lines());
    }
    CmdResult { lines, save: false }
}

/// Applies one command-line invocation to the store: `add` appends and asks
/// for a save; `list` only prints; `complete` marks and asks for a save only
/// when the id was found; anything else prints the usage.  The lines are
/// exactly what the program prints, in order.
pub fn run_command(tasks: &mut Vec<Task>, args: &Vec<String>) -> (r: CmdResult)
    requires
        old(tasks)@.len() <= u32::MAX as nat,
        args@.len() >= 2 && args@[1]@ == "complete"@ ==> args@.len() >= 3,
    ensures
        args@.len() < 2 || (args@[1]@ != "add"@ && args@[1]@ != "list"@ && args@[1]@
            != "complete"@) ==> final(tasks)@ == old(tasks)@ && !r.save && line_views(r.lines@)
            == usage_lines(),
        args@.len() >= 2 && args@[1]@ == "add"@ ==> {
            let d = join_range(arg_views(args@), 2, args@.len() as int);
            if d.len() > 0 {
                views(final(tasks)@) == views(old(tasks)@).push(
                    TaskV { id: old(tasks)@.len() as u32, description: d, completed: false },
                ) && r.save && line_views(r.lines@) == seq![msg_added(d)]
            } else {
                final(tasks)@ == old(tasks)@ && !r.save && line_views(r.lines@) == seq![
                    msg_no_task(),
                ]
            }
        },
        args@.len() >= 2 && args@[1]@ == "list"@ ==> final(tasks)@ == old(tasks)@ && !r.save
            && line_views(r.lines@) == display_lines(views(old(tasks)@)),
        args@.len() >= 2 && args@[1]@ == "complete"@ ==> match spec_parse_u32(args@[2]@) {
            Some(id) => {
                if exists|j: int| 0 <= j < old(tasks)@.len() && old(tasks)@[j]@.id == id {
                    final(tasks)@.len() == old(tasks)@.len() && (forall|j: int|
                        0 <= j < old(tasks)@.len() ==> final(tasks)@[j]@ == (
                        if old(tasks)@[j]@.id == id {
                            spec_mark(old(tasks)@[j]@)
                        } else {
                            old(tasks)@[j]@
                        })) && r.save && line_views(r.lines@) == seq![msg_marked(id)]
                } else {
                    final(tasks)@ == old(tasks)@ && !r.save && line_views(r.lines@) == seq![
                        msg_not_found(id),
                    ]
                }
            },
            None => final(tasks)@ == old(tasks)@ && !r.save && line_views(r.lines@) == seq![
                msg_invalid_id(),
            ],
        },
{
    proof {
        reveal_strlit("add");
        reveal_strlit("list");
        reveal_strlit("complete");
        assert("add"@.len() == 3);
        assert("list"@.len() == 4);
        assert("complete"@.len() == 8);
        assert("add"@ != "list"@ && "add"@ != "complete"@ && "list"@ != "complete"@);
    }
    let mut lines: Vec<String> = Vec::new();
    if args.len() < 2 {
        return usage_result();
    }
    let cmd: &str = args[1].as_str();
    if str_eq(cmd, "add") {
        let mut d = String::new();
        if args.len() > 2 {
            d.append(args[2].as_str());
            proof {
                assert(d@ =~= join_range(arg_views(args@), 2, 3));
            }
            let mut k: usize = 3;
            while k < args.len()
                invariant
                    3 <= k <= args@.len(),
                    d@ == join_range(arg_views(args@), 2, k as int),
                decreases args@.len() - k,
            {
                d.append(" ");
                d.append(args[k].as_str());
                proof {
                    reveal_strlit(" ");
                    assert(" "@ =~= seq![' ']);
                    lemma_join_snoc(arg_views(args@), 2, k as int);
                    assert(d@ =~= join_range(arg_views(args@), 2, (k + 1) as int));
                }
                k = k + 1;
            }
        } else {
            proof {
                assert(d@ =~= join_range(arg_views(args@), 2, args@.len() as int));
            }
        }
        let mut m = String::new();
        m.append("Added task: ");
        m.append(d.as_str());
        proof {
            assert(m@ =~= msg_added(d@));
        }
        let added = add_task(tasks, d);
        if added {
            lines.push(m);
            proof {
                assert(line_views(lines@) =~= seq![
                    msg_added(join_range(arg_views(args@), 2, args@.len() as int)),
                ]);
            }
            CmdResult { lines, save: true }
        } else {
            lines.push("Please provide a task to add.".to_owned());
            proof {
                assert(line_views(lines@) =~= seq![msg_no_task()]);
            }
            CmdResult { lines, save: false }
        }
    } else if str_eq(cmd, "list") {
        let ls = list_lines(tasks);
        CmdResult { lines: ls, save: false }
    } else if str_eq(cmd, "complete") {
        match parse_id(args[2].as_str()) {
            Some(id) => {
                let found = complete_task(tasks, id);
                let mut m = String::new();
                m.append("Task ");
                push_dec(&mut m, id);
                if found {
                    m.append(" marked as complete.");
                    proof {
                        assert(m@ =~= msg_marked(id));
                    }
                    lines.push(m);
                    proof {
                        assert(line_views(lines@) =~= seq![msg_marked(id)]);
                    }
                    CmdResult { lines, save: true }
                } else {
                    m.append(" could not be found.");
                    proof {
                        assert(m@ =~= msg_not_found(id));
                    }
                    lines.push(m);
                    proof {
                        assert(line_views(lines@) =~= seq![msg_not_found(id)]);
                    }
                    CmdResult { lines, save: false }
                }
            },
            None => {
                lines.push("Invalid id provided.".to_owned());
                proof {
                    assert(line_views(lines@) =~= seq![msg_invalid_id()]);
                }
                CmdResult { lines, save: false }
            },
        }
    } else {
        usage_result()
    }
}

} // verus!
