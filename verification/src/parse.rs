//! Parsing the persisted JSON document.
//!
//! The document is a JSON array of objects, each with exactly the three
//! fields `id` (a non-negative integer that fits in 32 bits), `description`
//! (a string) and `completed` (a boolean).  Whitespace and the order of the
//! fields do not matter; a missing, repeated or unknown field, or anything
//! else outside the shape, makes the whole document invalid.
//!
//! The grammar is stated as a machine that reads one character at a time;
//! `parse_doc` runs it over the whole input and accepts only if it ends in
//! the state that follows the closing bracket.  The executable parser walks
//! the same machine and is proved to return exactly what `parse_doc` says.

use vstd::prelude::*;
use vstd::string::*;
use crate::chars::{is_ws, is_digit, digit_val, unesc_char, ws_char, digit_of, unescape_of};
use crate::strutil::{push_char, str_eq};
use crate::task::{Task, TaskV, views, lemma_views_push};

verus! {

/// The three fields of one object, as far as they have been read.
#[verifier::ext_equal]
pub struct FieldsV {
    pub id: Option<u32>,
    pub description: Option<Seq<char>>,
    pub completed: Option<bool>,
}

/// Where the machine stands in the document.
#[verifier::ext_equal]
pub enum Mode {
    /// Before the opening bracket.
    Start,
    /// After the opening bracket, before the first object or the closing bracket.
    ArrStart,
    /// Inside an object, before the opening quote of a key.
    ObjKey,
    /// Inside a key, with the characters read so far.
    Key(Seq<char>),
    /// Inside a key, right after a backslash.
    KeyEsc(Seq<char>),
    /// After the closing quote of a key, before the colon.
    AfterKey(Seq<char>),
    /// After the colon of `id`, before the first digit.
    ValId,
    /// Inside the digits of `id`, with the value read so far.
    Num(u32),
    /// After the colon of `description`, before the opening quote.
    ValDesc,
    /// Inside the description string, with the characters read so far.
    Str(Seq<char>),
    /// Inside the description string, right after a backslash.
    StrEsc(Seq<char>),
    /// After the colon of `completed`, before `true` or `false`.
    ValComp,
    /// Inside the word `true` or `false`, at the given position.
    Lit(bool, int),
    /// After a complete field value, before a comma or the closing brace.
    AfterVal,
    /// After a complete object, before a comma or the closing bracket.
    AfterObj,
    /// After a comma between objects, before the next opening brace.
    NextObj,
    /// After the closing bracket: the accepting state.
    End,
    /// The document is not of the expected shape.
    Fail,
}

/// The full state: mode, fields of the current object, tasks read so far.
#[verifier::ext_equal]
pub struct St {
    pub mode: Mode,
    pub fields: FieldsV,
    pub tasks: Seq<TaskV>,
}

pub open spec fn empty_fields() -> FieldsV {
    FieldsV { id: None, description: None, completed: None }
}

pub open spec fn init_st() -> St {
    St { mode: Mode::Start, fields: empty_fields(), tasks: Seq::empty() }
}

pub open spec fn fail(st: St) -> St {
    St { mode: Mode::Fail, ..st }
}

/// The word a boolean is written as.
pub open spec fn lit_word(b: bool) -> Seq<char> {
    if b {
        seq!['t', 'r', 'u', 'e']
    } else {
        seq!['f', 'a', 'l', 's', 'e']
    }
}

pub open spec fn key_id() -> Seq<char> {
    seq!['i', 'd']
}

pub open spec fn key_description() -> Seq<char> {
    seq!['d', 'e', 's', 'c', 'r', 'i', 'p', 't', 'i', 'o', 'n']
}

pub open spec fn key_completed() -> Seq<char> {
    seq!['c', 'o', 'm', 'p', 'l', 'e', 't', 'e', 'd']
}

/// After a colon, the key decides which value is expected; a key seen twice
/// or an unknown key spoils the document.
pub open spec fn step_dispatch(st: St, key: Seq<char>) -> St {
    if key == key_id() {
        if st.fields.id is None {
            St { mode: Mode::ValId, ..st }
        } else {
            fail(st)
        }
    } else if key == key_description() {
        if st.fields.description is None {
            St { mode: Mode::ValDesc, ..st }
        } else {
            fail(st)
        }
    } else if key == key_completed() {
        if st.fields.completed is None {
            St { mode: Mode::ValComp, ..st }
        } else {
            fail(st)
        }
    } else {
        fail(st)
    }
}

/// After a complete field value: whitespace, a comma before the next key,
/// or the closing brace, which needs all three fields and yields a task.
pub open spec fn step_after_val(st: St, c: char) -> St {
    if is_ws(c) {
        St { mode: Mode::AfterVal, ..st }
    } else if c == ',' {
        St { mode: Mode::ObjKey, ..st }
    } else if c == '}' {
        match (st.fields.id, st.fields.description, st.fields.completed) {
            (Some(i), Some(d), Some(b)) => St {
                mode: Mode::AfterObj,
                fields: empty_fields(),
                tasks: st.tasks.push(TaskV { id: i, description: d, completed: b }),
            },
            _ => fail(st),
        }
    } else {
        fail(st)
    }
}

/// One character moves the machine one step.
pub open spec fn step(st: St, c: char) -> St {
    match st.mode {
        Mode::Start => if is_ws(c) {
            st
        } else if c == '[' {
            St { mode: Mode::ArrStart, ..st }
        } else {
            fail(st)
        },
        Mode::ArrStart => if is_ws(c) {
            st
        } else if c == ']' {
            St { mode: Mode::End, ..st }
        } else if c == '{' {
            St { mode: Mode::ObjKey, fields: empty_fields(), ..st }
        } else {
            fail(st)
        },
        Mode::ObjKey => if is_ws(c) {
            st
        } else if c == '"' {
            St { mode: Mode::Key(Seq::empty()), ..st }
        } else {
            fail(st)
        },
        Mode::Key(k) => if c == '"' {
            St { mode: Mode::AfterKey(k), ..st }
        } else if c == '\\' {
            St { mode: Mode::KeyEsc(k), ..st }
        } else {
            St { mode: Mode::Key(k.push(c)), ..st }
        },
        Mode::KeyEsc(k) => match unesc_char(c) {
            Some(u) => St { mode: Mode::Key(k.push(u)), ..st },
            None => fail(st),
        },
        Mode::AfterKey(k) => if is_ws(c) {
            st
        } else if c == ':' {
            step_dispatch(st, k)
        } else {
            fail(st)
        },
        Mode::ValId => if is_ws(c) {
            st
        } else if is_digit(c) {
            St { mode: Mode::Num(digit_val(c)), ..st }
        } else {
            fail(st)
        },
        Mode::Num(acc) => if is_digit(c) {
            if acc * 10 + digit_val(c) <= u32::MAX {
                St { mode: Mode::Num((acc * 10 + digit_val(c)) as u32), ..st }
            } else {
                fail(st)
            }
        } else {
            step_after_val(
                St { fields: FieldsV { id: Some(acc), ..st.fields }, ..st },
                c,
            )
        },
        Mode::ValDesc => if is_ws(c) {
            st
        } else if c == '"' {
            St { mode: Mode::Str(Seq::empty()), ..st }
        } else {
            fail(st)
        },
        Mode::Str(s) => if c == '"' {
            St {
                mode: Mode::AfterVal,
                fields: FieldsV { description: Some(s), ..st.fields },
                ..st
            }
        } else if c == '\\' {
            St { mode: Mode::StrEsc(s), ..st }
        } else {
            St { mode: Mode::Str(s.push(c)), ..st }
        },
        Mode::StrEsc(s) => match unesc_char(c) {
            Some(u) => St { mode: Mode::Str(s.push(u)), ..st },
            None => fail(st),
        },
        Mode::ValComp => if is_ws(c) {
            st
        } else if c == 't' {
            St { mode: Mode::Lit(true, 1), ..st }
        } else if c == 'f' {
            St { mode: Mode::Lit(false, 1), ..st }
        } else {
            fail(st)
        },
        Mode::Lit(b, i) => if 0 <= i < lit_word(b).len() && c == lit_word(b)[i] {
            if i + 1 == lit_word(b).len() {
                St {
                    mode: Mode::AfterVal,
                    fields: FieldsV { completed: Some(b), ..st.fields },
                    ..st
                }
            } else {
                St { mode: Mode::Lit(b, i + 1), ..st }
            }
        } else {
            fail(st)
        },
        Mode::AfterVal => step_after_val(st, c),
        Mode::AfterObj => if is_ws(c) {
            st
        } else if c == ',' {
            St { mode: Mode::NextObj, ..st }
        } else if c == ']' {
            St { mode: Mode::End, ..st }
        } else {
            fail(st)
        },
        Mode::NextObj => if is_ws(c) {
            st
        } else if c == '{' {
            St { mode: Mode::ObjKey, fields: empty_fields(), ..st }
        } else {
            fail(st)
        },
        Mode::End => if is_ws(c) {
            st
        } else {
            fail(st)
        },
        Mode::Fail => st,
    }
}

/// Running the machine over a whole sequence of characters.
pub open spec fn run(s: Seq<char>, st: St) -> St
    decreases s.len(),
{
    if s.len() == 0 {
        st
    } else {
        run(s.drop_first(), step(st, s[0]))
    }
}

/// What the document means: the tasks it lists, or nothing if it is not of
/// the expected shape.
pub open spec fn parse_doc(s: Seq<char>) -> Option<Seq<TaskV>> {
    let fin = run(s, init_st());
    if fin.mode is End {
        Some(fin.tasks)
    } else {
        None
    }
}

/// Running over a sequence and then one more character is one more step.
pub proof fn lemma_run_snoc(s: Seq<char>, c: char, st: St)
    ensures
        run(s.push(c), st) == step(run(s, st), c),
    decreases s.len(),
{
    if s.len() == 0 {
        assert(s.push(c).drop_first() =~= Seq::<char>::empty());
        assert(s.push(c)[0] == c);
    } else {
        assert(s.push(c).drop_first() =~= s.drop_first().push(c));
        assert(s.push(c)[0] == s[0]);
        lemma_run_snoc(s.drop_first(), c, step(st, s[0]));
    }
}

/// Running over a concatenation is running over the parts in turn.
pub proof fn lemma_run_concat(a: Seq<char>, b: Seq<char>, st: St)
    ensures
        run(a + b, st) == run(b, run(a, st)),
    decreases a.len(),
{
    if a.len() == 0 {
        assert(a + b =~= b);
    } else {
        assert((a + b).drop_first() =~= a.drop_first() + b);
        assert((a + b)[0] == a[0]);
        lemma_run_concat(a.drop_first(), b, step(st, a[0]));
    }
}

/// The executable machine's position, without the ghost data of the mode.
#[derive(Clone, Copy)]
enum Tag {
    Start,
    ArrStart,
    ObjKey,
    Key,
    KeyEsc,
    AfterKey,
    ValId,
    Num,
    ValDesc,
    Str,
    StrEsc,
    ValComp,
    LitTrue,
    LitFalse,
    AfterVal,
    AfterObj,
    NextObj,
    End,
    Fail,
}

/// The mode the executable state stands for: the tag plus whichever of the
/// registers the tag reads.
spec fn mode_v(tag: Tag, cur: Seq<char>, num: u32, lit_i: int) -> Mode {
    match tag {
        Tag::Start => Mode::Start,
        Tag::ArrStart => Mode::ArrStart,
        Tag::ObjKey => Mode::ObjKey,
        Tag::Key => Mode::Key(cur),
        Tag::KeyEsc => Mode::KeyEsc(cur),
        Tag::AfterKey => Mode::AfterKey(cur),
        Tag::ValId => Mode::ValId,
        Tag::Num => Mode::Num(num),
        Tag::ValDesc => Mode::ValDesc,
        Tag::Str => Mode::Str(cur),
        Tag::StrEsc => Mode::StrEsc(cur),
        Tag::ValComp => Mode::ValComp,
        Tag::LitTrue => Mode::Lit(true, lit_i),
        Tag::LitFalse => Mode::Lit(false, lit_i),
        Tag::AfterVal => Mode::AfterVal,
        Tag::AfterObj => Mode::AfterObj,
        Tag::NextObj => Mode::NextObj,
        Tag::End => Mode::End,
        Tag::Fail => Mode::Fail,
    }
}

spec fn fields_v(fid: Option<u32>, fdesc: Option<String>, fcomp: Option<bool>) -> FieldsV {
    FieldsV {
        id: fid,
        description: match fdesc {
            Option::Some(d) => Some(d@),
            Option::None => None,
        },
        completed: fcomp,
    }
}

spec fn st_v(
    tag: Tag,
    cur: Seq<char>,
    num: u32,
    lit_i: int,
    fid: Option<u32>,
    fdesc: Option<String>,
    fcomp: Option<bool>,
    tasks: Seq<Task>,
) -> St {
    St {
        mode: mode_v(tag, cur, num, lit_i),
        fields: fields_v(fid, fdesc, fcomp),
        tasks: views(tasks),
    }
}

/// Reads the document character by character, walking exactly the machine
/// that `parse_doc` runs: the result is the tasks the document lists, or
/// nothing if the document is not of the expected shape.
#[verifier::rlimit(50)]
pub fn parse_tasks(s: &Vec<char>) -> (r: Option<Vec<Task>>)
    ensures
        match r {
            Some(ts) => parse_doc(s@) == Some(views(ts@)),
            None => parse_doc(s@) is None,
        },
{
    let mut tag = Tag::Start;
    let mut cur: String = String::new();
    let mut num: u32 = 0;
    let mut lit_i: usize = 0;
    let mut fid: Option<u32> = None;
    let mut fdesc: Option<String> = None;
    let mut fcomp: Option<bool> = None;
    let mut tasks: Vec<Task> = Vec::new();
    let n = s.len();
    let mut i: usize = 0;
    proof {
        assert(views(tasks@) =~= Seq::<TaskV>::empty());
        assert(s@.subrange(0, 0) =~= Seq::<char>::empty());
        assert(st_v(tag, cur@, num, lit_i as int, fid, fdesc, fcomp, tasks@) =~= init_st());
    }
    while i < n
        invariant
            i <= n,
            n == s@.len(),
            st_v(tag, cur@, num, lit_i as int, fid, fdesc, fcomp, tasks@) == run(
                s@.subrange(0, i as int),
                init_st(),
            ),
        decreases n - i,
    {
        let c = s[i];
        proof {
            assert(s@.subrange(0, (i + 1) as int) =~= s@.subrange(0, i as int).push(c));
            lemma_run_snoc(s@.subrange(0, i as int), c, init_st());
        }
        match tag {
            Tag::Start => {
                if ws_char(c) {
                } else if c == '[' {
                    tag = Tag::ArrStart;
                } else {
                    tag = Tag::Fail;
                }
            }
            Tag::ArrStart => {
                if ws_char(c) {
                } else if c == ']' {
                    tag = Tag::End;
                } else if c == '{' {
                    tag = Tag::ObjKey;
                    fid = None;
                    fdesc = None;
                    fcomp = None;
                } else {
                    tag = Tag::Fail;
                }
            }
            Tag::ObjKey => {
                if ws_char(c) {
                } else if c == '"' {
                    tag = Tag::Key;
                    cur = String::new();
                } else {
                    tag = Tag::Fail;
                }
            }
            Tag::Key => {
                if c == '"' {
                    tag = Tag::AfterKey;
                } else if c == '\\' {
                    tag = Tag::KeyEsc;
                } else {
                    push_char(&mut cur, c);
                }
            }
            Tag::KeyEsc => {
                match unescape_of(c) {
                    Some(u) => {
                        push_char(&mut cur, u);
                        tag = Tag::Key;
                    }
                    None => {
                        tag = Tag::Fail;
                    }
                }
            }
            Tag::AfterKey => {
                if ws_char(c) {
                } else if c == ':' {
                    proof {
                        reveal_strlit("id");
                        reveal_strlit("description");
                        reveal_strlit("completed");
                        assert("id"@ =~= key_id());
                        assert("description"@ =~= key_description());
                        assert("completed"@ =~= key_completed());
                    }
                    if str_eq(cur.as_str(), "id") {
                        if fid.is_none() {
                            tag = Tag::ValId;
                        } else {
                            tag = Tag::Fail;
                        }
                    } else if str_eq(cur.as_str(), "description") {
                        if fdesc.is_none() {
                            tag = Tag::ValDesc;
                        } else {
                            tag = Tag::Fail;
                        }
                    } else if str_eq(cur.as_str(), "completed") {
                        if fcomp.is_none() {
                            tag = Tag::ValComp;
                        } else {
                            tag = Tag::Fail;
                        }
                    } else {
                        tag = Tag::Fail;
                    }
                } else {
                    tag = Tag::Fail;
                }
            }
            Tag::ValId => {
                if ws_char(c) {
                } else {
                    match digit_of(c) {
                        Some(d) => {
                            num = d;
                            tag = Tag::Num;
                        }
                        None => {
                            tag = Tag::Fail;
                        }
                    }
                }
            }
            Tag::Num => {
                match digit_of(c) {
                    Some(d) => {
                        let w: u64 = (num as u64) * 10 + (d as u64);
                        if w <= u32::MAX as u64 {
                            num = w as u32;
                        } else {
                            tag = Tag::Fail;
                        }
                    }
                    None => {
                        fid = Some(num);
                        if ws_char(c) {
                            tag = Tag::AfterVal;
                        } else if c == ',' {
                            tag = Tag::ObjKey;
                        } else if c == '}' {
                            match (fid, fdesc, fcomp) {
                                (Some(iv), Some(dv), Some(cv)) => {
                                    let t = Task { id: iv, description: dv, completed: cv };
                                    proof {
                                        lemma_views_push(tasks@, t);
                                    }
                                    tasks.push(t);
                                    fid = None;
                                    fdesc = None;
                                    fcomp = None;
                                    tag = Tag::AfterObj;
                                }
                                (a, b, c2) => {
                                    fid = a;
                                    fdesc = b;
                                    fcomp = c2;
                                    tag = Tag::Fail;
                                }
                            }
                        } else {
                            tag = Tag::Fail;
                        }
                    }
                }
            }
            Tag::ValDesc => {
                if ws_char(c) {
                } else if c == '"' {
                    tag = Tag::Str;
                    cur = String::new();
                } else {
                    tag = Tag::Fail;
                }
            }
            Tag::Str => {
                if c == '"' {
                    fdesc = Some(cur);
                    cur = String::new();
                    tag = Tag::AfterVal;
                } else if c == '\\' {
                    tag = Tag::StrEsc;
                } else {
                    push_char(&mut cur, c);
                }
            }
            Tag::StrEsc => {
                match unescape_of(c) {
                    Some(u) => {
                        push_char(&mut cur, u);
                        tag = Tag::Str;
                    }
                    None => {
                        tag = Tag::Fail;
                    }
                }
            }
            Tag::ValComp => {
                if ws_char(c) {
                } else if c == 't' {
                    tag = Tag::LitTrue;
                    lit_i = 1;
                } else if c == 'f' {
                    tag = Tag::LitFalse;
                    lit_i = 1;
                } else {
                    tag = Tag::Fail;
                }
            }
            Tag::LitTrue => {
                let ok = if lit_i == 0 {
                    c == 't'
                } else if lit_i == 1 {
                    c == 'r'
                } else if lit_i == 2 {
                    c == 'u'
                } else if lit_i == 3 {
                    c == 'e'
                } else {
                    false
                };
                if ok {
                    if lit_i == 3 {
                        fcomp = Some(true);
                        tag = Tag::AfterVal;
                    } else {
                        lit_i = lit_i + 1;
                    }
                } else {
                    tag = Tag::Fail;
                }
            }
            Tag::LitFalse => {
                let ok = if lit_i == 0 {
                    c == 'f'
                } else if lit_i == 1 {
                    c == 'a'
                } else if lit_i == 2 {
                    c == 'l'
                } else if lit_i == 3 {
                    c == 's'
                } else if lit_i == 4 {
                    c == 'e'
                } else {
                    false
                };
                if ok {
                    if lit_i == 4 {
                        fcomp = Some(false);
                        tag = Tag::AfterVal;
                    } else {
                        lit_i = lit_i + 1;
                    }
                } else {
                    tag = Tag::Fail;
                }
            }
            Tag::AfterVal => {
                if ws_char(c) {
                } else if c == ',' {
                    tag = Tag::ObjKey;
                } else if c == '}' {
                    match (fid, fdesc, fcomp) {
                        (Some(iv), Some(dv), Some(cv)) => {
                            let t = Task { id: iv, description: dv, completed: cv };
                            proof {
                                lemma_views_push(tasks@, t);
                            }
                            tasks.push(t);
                            fid = None;
                            fdesc = None;
                            fcomp = None;
                            tag = Tag::AfterObj;
                        }
                        (a, b, c2) => {
                            fid = a;
                            fdesc = b;
                            fcomp = c2;
                            tag = Tag::Fail;
                        }
                    }
                } else {
                    tag = Tag::Fail;
                }
            }
            Tag::AfterObj => {
                if ws_char(c) {
                } else if c == ',' {
                    tag = Tag::NextObj;
                } else if c == ']' {
                    tag = Tag::End;
                } else {
                    tag = Tag::Fail;
                }
            }
            Tag::NextObj => {
                if ws_char(c) {
                } else if c == '{' {
                    tag = Tag::ObjKey;
                    fid = None;
                    fdesc = None;
                    fcomp = None;
                } else {
                    tag = Tag::Fail;
                }
            }
            Tag::End => {
                if ws_char(c) {
                } else {
                    tag = Tag::Fail;
                }
            }
            Tag::Fail => {}
        }
        i = i + 1;
    }
    proof {
        assert(s@.subrange(0, n as int) =~= s@);
    }
    match tag {
        Tag::End => Some(tasks),
        _ => None,
    }
}

} // verus!
