//! Rendering the persisted JSON document.
//!
//! The store is written as a human-readable JSON array: one object per task,
//! two-space indentation, the fields in the order `id`, `description`,
//! `completed`.  `render_doc` states the exact characters; the executable
//! renderer is proved to produce them.

use vstd::prelude::*;
use vstd::string::*;
use crate::chars::{esc, esc_char, dec_rep, char_of_digit};
use crate::parse::lit_word;
use crate::strutil::push_char;
use crate::task::{Task, TaskV, views};

verus! {

/// The opening of the array, when it has at least one task.
pub open spec fn arr_open() -> Seq<char> {
    seq!['[', '\n']
}

/// The separator between two rendered tasks.
pub open spec fn sep() -> Seq<char> {
    seq![',', '\n']
}

/// The closing of the array, when it has at least one task.
pub open spec fn arr_close() -> Seq<char> {
    seq!['\n', ']']
}

/// The opening of one object, up to the digits of the id.
pub open spec fn obj_open() -> Seq<char> {
    seq![' ', ' ', '{', '\n', ' ', ' ', ' ', ' ', '"', 'i', 'd', '"', ':', ' ']
}

/// Between the digits of the id and the characters of the description.
pub open spec fn mid_desc() -> Seq<char> {
    seq![
        ',', '\n', ' ', ' ', ' ', ' ', '"', 'd', 'e', 's', 'c', 'r', 'i', 'p', 't', 'i', 'o',
        'n', '"', ':', ' ', '"',
    ]
}

/// Between the characters of the description and the completion word.
pub open spec fn mid_comp() -> Seq<char> {
    seq![
        '"', ',', '\n', ' ', ' ', ' ', ' ', '"', 'c', 'o', 'm', 'p', 'l', 'e', 't', 'e', 'd',
        '"', ':', ' ',
    ]
}

/// The closing of one object.
pub open spec fn obj_close() -> Seq<char> {
    seq!['\n', ' ', ' ', '}']
}

/// One rendered task object.
pub open spec fn render_task(t: TaskV) -> Seq<char> {
    obj_open() + dec_rep(t.id) + mid_desc() + esc(t.description) + mid_comp() + lit_word(
        t.completed,
    ) + obj_close()
}

/// The rendered tasks of a non-empty store, separated by commas.
pub open spec fn render_items(ts: Seq<TaskV>) -> Seq<char>
    recommends
        ts.len() >= 1,
    decreases ts.len(),
{
    if ts.len() <= 1 {
        render_task(ts[0])
    } else {
        render_task(ts[0]) + sep() + render_items(ts.drop_first())
    }
}

/// The whole rendered document.
pub open spec fn render_doc(ts: Seq<TaskV>) -> Seq<char> {
    if ts.len() == 0 {
        seq!['[', ']']
    } else {
        arr_open() + render_items(ts) + arr_close()
    }
}

/// Escaping a sequence with one character appended.
pub proof fn lemma_esc_snoc(s: Seq<char>, c: char)
    ensures
        esc(s.push(c)) == esc(s) + esc_char(c),
    decreases s.len(),
{
    if s.len() == 0 {
        assert(s.push(c).drop_first() =~= Seq::<char>::empty());
        assert(s.push(c)[0] == c);
        assert(esc_char(c) + esc(Seq::<char>::empty()) =~= esc(s) + esc_char(c));
    } else {
        assert(s.push(c).drop_first() =~= s.drop_first().push(c));
        assert(s.push(c)[0] == s[0]);
        lemma_esc_snoc(s.drop_first(), c);
        assert(esc_char(s[0]) + (esc(s.drop_first()) + esc_char(c)) =~= (esc_char(s[0]) + esc(
            s.drop_first(),
        )) + esc_char(c));
    }
}

/// The rendered items of a sequence with one task appended.
pub proof fn lemma_items_snoc(ts: Seq<TaskV>, t: TaskV)
    requires
        ts.len() >= 1,
    ensures
        render_items(ts.push(t)) == render_items(ts) + sep() + render_task(t),
    decreases ts.len(),
{
    if ts.len() == 1 {
        assert(ts.push(t).drop_first() =~= seq![t]);
        assert(ts.push(t)[0] == ts[0]);
        assert(render_items(seq![t]) == render_task(seq![t][0]));
        assert(seq![t][0] == t);
    } else {
        assert(ts.push(t).drop_first() =~= ts.drop_first().push(t));
        assert(ts.push(t)[0] == ts[0]);
        lemma_items_snoc(ts.drop_first(), t);
        assert(render_task(ts[0]) + sep() + (render_items(ts.drop_first()) + sep() + render_task(
            t,
        )) =~= (render_task(ts[0]) + sep() + render_items(ts.drop_first())) + sep() + render_task(
            t,
        ));
    }
}

/// Appends the decimal digits of a number, most significant first.
pub fn push_dec(out: &mut String, x: u32)
    ensures
        final(out)@ == old(out)@ + dec_rep(x),
    decreases x,
{
    if x >= 10 {
        push_dec(out, x / 10);
    }
    push_char(out, char_of_digit(x % 10));
    proof {
        if x < 10 {
            assert(out@ =~= old(out)@ + dec_rep(x));
        } else {
            assert(out@ =~= old(out)@ + dec_rep(x));
        }
    }
}

/// Appends the escaped form of a string.
fn push_esc(out: &mut String, d: &str)
    ensures
        final(out)@ == old(out)@ + esc(d@),
{
    let n = d.unicode_len();
    let mut i: usize = 0;
    proof {
        assert(d@.subrange(0, 0) =~= Seq::<char>::empty());
        assert(out@ =~= old(out)@ + esc(d@.subrange(0, 0)));
    }
    while i < n
        invariant
            i <= n,
            n == d@.len(),
            out@ == old(out)@ + esc(d@.subrange(0, i as int)),
        decreases n - i,
    {
        let c = d.get_char(i);
        if c == '"' {
            push_char(out, '\\');
            push_char(out, '"');
        } else if c == '\\' {
            push_char(out, '\\');
            push_char(out, '\\');
        } else if c == '\n' {
            push_char(out, '\\');
            push_char(out, 'n');
        } else if c == '\t' {
            push_char(out, '\\');
            push_char(out, 't');
        } else if c == '\r' {
            push_char(out, '\\');
            push_char(out, 'r');
        } else {
            push_char(out, c);
        }
        proof {
            lemma_esc_snoc(d@.subrange(0, i as int), c);
            assert(d@.subrange(0, (i + 1) as int) =~= d@.subrange(0, i as int).push(c));
            assert(out@ =~= old(out)@ + esc(d@.subrange(0, (i + 1) as int)));
        }
        i = i + 1;
    }
    proof {
        assert(d@.subrange(0, n as int) =~= d@);
    }
}

/// Appends one rendered task object.
fn push_task(out: &mut String, t: &Task)
    ensures
        final(out)@ == old(out)@ + render_task(t@),
{
    out.append("  {\n    \"id\": ");
    push_dec(out, t.id);
    out.append(",\n    \"description\": \"");
    push_esc(out, t.description.as_str());
    out.append("\",\n    \"completed\": ");
    if t.completed {
        out.append("true");
    } else {
        out.append("false");
    }
    out.append("\n  }");
    proof {
        reveal_strlit("  {\n    \"id\": ");
        reveal_strlit(",\n    \"description\": \"");
        reveal_strlit("\",\n    \"completed\": ");
        reveal_strlit("true");
        reveal_strlit("false");
        reveal_strlit("\n  }");
        assert("  {\n    \"id\": "@ =~= obj_open());
        assert(",\n    \"description\": \""@ =~= mid_desc());
        assert("\",\n    \"completed\": "@ =~= mid_comp());
        assert("true"@ =~= lit_word(true));
        assert("false"@ =~= lit_word(false));
        assert("\n  }"@ =~= obj_close());
        assert(out@ =~= old(out)@ + render_task(t@));
    }
}

/// Renders the whole store exactly as `render_doc` states it.
pub fn render_tasks(tasks: &Vec<Task>) -> (r: String)
    ensures
        r@ == render_doc(views(tasks@)),
{
    let mut out = String::new();
    if tasks.len() == 0 {
        out.append("[]");
        proof {
            reveal_strlit("[]");
            assert(out@ =~= render_doc(views(tasks@)));
        }
        return out;
    }
    out.append("[\n");
    proof {
        reveal_strlit("[\n");
        assert(out@ =~= arr_open());
    }
    push_task(&mut out, &tasks[0]);
    let mut k: usize = 1;
    proof {
        assert(views(tasks@).subrange(0, 1) =~= seq![tasks@[0]@]);
        assert(render_items(views(tasks@).subrange(0, 1)) == render_task(tasks@[0]@));
        assert(out@ =~= arr_open() + render_items(views(tasks@).subrange(0, 1)));
    }
    while k < tasks.len()
        invariant
            1 <= k <= tasks@.len(),
            out@ == arr_open() + render_items(views(tasks@).subrange(0, k as int)),
        decreases tasks@.len() - k,
    {
        out.append(",\n");
        push_task(&mut out, &tasks[k]);
        proof {
            reveal_strlit(",\n");
            assert(",\n"@ =~= sep());
            lemma_items_snoc(views(tasks@).subrange(0, k as int), tasks@[k as int]@);
            assert(views(tasks@).subrange(0, (k + 1) as int) =~= views(tasks@).subrange(
                0,
                k as int,
            ).push(tasks@[k as int]@));
            assert(out@ =~= arr_open() + render_items(views(tasks@).subrange(0, (k + 1) as int)));
        }
        k = k + 1;
    }
    out.append("\n]");
    proof {
        reveal_strlit("\n]");
        assert("\n]"@ =~= arr_close());
        assert(views(tasks@).subrange(0, tasks@.len() as int) =~= views(tasks@));
        assert(out@ =~= render_doc(views(tasks@)));
    }
    out
}

} // verus!
