//! The save/load round trip: parsing a rendered document gives back exactly
//! the tasks that were rendered, whatever they hold.

use vstd::prelude::*;
use vstd::arithmetic::div_mod::lemma_fundamental_div_mod;
use crate::chars::{esc, esc_char, dec_rep, digit_char, digit_val, is_digit, is_ws};
use crate::parse::{
    FieldsV, Mode, St, empty_fields, init_st, key_completed, key_description, key_id, lit_word,
    parse_doc, run, step, lemma_run_concat, lemma_run_snoc,
};
use crate::render::{
    arr_close, arr_open, mid_comp, mid_desc, obj_close, obj_open, render_doc, render_items,
    render_task, sep,
};
use crate::task::TaskV;

verus! {

/// The modes that stand still on whitespace.
pub open spec fn ws_stable(m: Mode) -> bool {
    m is Start || m is ArrStart || m is ObjKey || m is AfterKey || m is ValId || m is ValDesc
        || m is ValComp || m is AfterVal || m is AfterObj || m is NextObj || m is End
}

/// Running over a single character is a single step.
proof fn lemma_run_one(c: char, st: St)
    ensures
        run(seq![c], st) == step(st, c),
{
    assert(seq![c].drop_first() =~= Seq::<char>::empty());
    assert(seq![c][0] == c);
    assert(run(seq![c], st) == run(seq![c].drop_first(), step(st, seq![c][0])));
    assert(run(Seq::<char>::empty(), step(st, c)) == step(st, c));
}

/// Whitespace moves none of the whitespace-stable modes.
proof fn lemma_run_ws(w: Seq<char>, st: St)
    requires
        ws_stable(st.mode),
        forall|j: int| 0 <= j < w.len() ==> is_ws(w[j]),
    ensures
        run(w, st) == st,
    decreases w.len(),
{
    if w.len() > 0 {
        assert(is_ws(w[0]));
        assert(step(st, w[0]) == st);
        assert(forall|j: int| 0 <= j < w.drop_first().len() ==> is_ws(w.drop_first()[j]));
        lemma_run_ws(w.drop_first(), st);
    }
}

/// Plain characters inside a key are taken up one by one.
proof fn lemma_run_key(w: Seq<char>, k: Seq<char>, st: St)
    requires
        st.mode == Mode::Key(k),
        forall|j: int| 0 <= j < w.len() ==> w[j] != '"' && w[j] != '\\',
    ensures
        run(w, st) == (St { mode: Mode::Key(k + w), ..st }),
    decreases w.len(),
{
    if w.len() == 0 {
        assert(k + w =~= k);
        assert(run(w, st) == st);
    } else {
        assert(step(st, w[0]) == (St { mode: Mode::Key(k.push(w[0])), ..st }));
        assert(forall|j: int|
            0 <= j < w.drop_first().len() ==> w.drop_first()[j] != '"' && w.drop_first()[j]
                != '\\');
        lemma_run_key(w.drop_first(), k.push(w[0]), St { mode: Mode::Key(k.push(w[0])), ..st });
        assert(k.push(w[0]) + w.drop_first() =~= k + w);
    }
}

/// The escaped form of a description is read back as exactly its characters.
proof fn lemma_run_esc(d: Seq<char>, acc: Seq<char>, st: St)
    requires
        st.mode == Mode::Str(acc),
    ensures
        run(esc(d), st) == (St { mode: Mode::Str(acc + d), ..st }),
    decreases d.len(),
{
    if d.len() == 0 {
        assert(acc + d =~= acc);
        assert(run(esc(d), st) == st);
    } else {
        let c = d[0];
        let stp = St { mode: Mode::Str(acc.push(c)), ..st };
        if c == '"' {
            assert(esc_char(c) =~= seq!['\\'] + seq!['"']);
            lemma_run_concat(seq!['\\'], seq!['"'], st);
            lemma_run_one('\\', st);
            lemma_run_one('"', St { mode: Mode::StrEsc(acc), ..st });
            assert(run(esc_char(c), st) == stp);
        } else if c == '\\' {
            assert(esc_char(c) =~= seq!['\\'] + seq!['\\']);
            lemma_run_concat(seq!['\\'], seq!['\\'], st);
            lemma_run_one('\\', st);
            lemma_run_one('\\', St { mode: Mode::StrEsc(acc), ..st });
            assert(run(esc_char(c), st) == stp);
        } else if c == '\n' {
            assert(esc_char(c) =~= seq!['\\'] + seq!['n']);
            lemma_run_concat(seq!['\\'], seq!['n'], st);
            lemma_run_one('\\', st);
            lemma_run_one('n', St { mode: Mode::StrEsc(acc), ..st });
            assert(run(esc_char(c), st) == stp);
        } else if c == '\t' {
            assert(esc_char(c) =~= seq!['\\'] + seq!['t']);
            lemma_run_concat(seq!['\\'], seq!['t'], st);
            lemma_run_one('\\', st);
            lemma_run_one('t', St { mode: Mode::StrEsc(acc), ..st });
            assert(run(esc_char(c), st) == stp);
        } else if c == '\r' {
            assert(esc_char(c) =~= seq!['\\'] + seq!['r']);
            lemma_run_concat(seq!['\\'], seq!['r'], st);
            lemma_run_one('\\', st);
            lemma_run_one('r', St { mode: Mode::StrEsc(acc), ..st });
            assert(run(esc_char(c), st) == stp);
        } else {
            assert(esc_char(c) =~= seq![c]);
            lemma_run_one(c, st);
            assert(run(esc_char(c), st) == stp);
        }
        lemma_run_concat(esc_char(c), esc(d.drop_first()), st);
        lemma_run_esc(d.drop_first(), acc.push(c), stp);
        assert(acc.push(c) + d.drop_first() =~= acc + d);
    }
}

/// A digit character is a digit with its value, and no whitespace.
proof fn lemma_digit_char(m: u32)
    requires
        m < 10,
    ensures
        is_digit(digit_char(m)),
        digit_val(digit_char(m)) == m,
        !is_ws(digit_char(m)),
{
}

/// The decimal digits of an id are read back as exactly its value.
proof fn lemma_run_dec(n: u32, st: St)
    requires
        st.mode is ValId,
    ensures
        run(dec_rep(n), st) == (St { mode: Mode::Num(n), ..st }),
    decreases n,
{
    if n < 10 {
        lemma_digit_char(n);
        assert(dec_rep(n) =~= seq![digit_char(n)]);
        lemma_run_one(digit_char(n), st);
    } else {
        lemma_run_dec(n / 10, st);
        lemma_run_snoc(dec_rep(n / 10), digit_char(n % 10), st);
        lemma_digit_char(n % 10);
        lemma_fundamental_div_mod(n as int, 10);
        assert((n / 10) * 10 + digit_val(digit_char(n % 10)) == n);
    }
}

/// The opening of an object: up to and including the space after `"id":`,
/// it brings any state that expects an object to the one that expects digits.
proof fn lemma_run_obj_open(st: St)
    requires
        st.mode is ArrStart || st.mode is NextObj,
    ensures
        run(obj_open(), st) == (St { mode: Mode::ValId, fields: empty_fields(), tasks: st.tasks }),
{
    let p1 = seq![' ', ' '];
    let p2 = seq!['{'];
    let p3 = seq!['\n', ' ', ' ', ' ', ' '];
    let p4 = seq!['"'];
    let kid = key_id();
    let p6 = seq!['"', ':', ' '];
    assert(obj_open() =~= p1 + (p2 + (p3 + (p4 + (kid + p6)))));
    assert(forall|j: int| 0 <= j < p1.len() ==> is_ws(p1[j]));
    assert(forall|j: int| 0 <= j < p3.len() ==> is_ws(p3[j]));
    assert(forall|j: int| 0 <= j < kid.len() ==> kid[j] != '"' && kid[j] != '\\');
    lemma_run_concat(p1, p2 + (p3 + (p4 + (kid + p6))), st);
    lemma_run_ws(p1, st);
    lemma_run_concat(p2, p3 + (p4 + (kid + p6)), st);
    lemma_run_one('{', st);
    let st2 = St { mode: Mode::ObjKey, fields: empty_fields(), tasks: st.tasks };
    assert(step(st, '{') == st2);
    lemma_run_concat(p3, p4 + (kid + p6), st2);
    lemma_run_ws(p3, st2);
    lemma_run_concat(p4, kid + p6, st2);
    lemma_run_one('"', st2);
    let st3 = St { mode: Mode::Key(Seq::empty()), ..st2 };
    assert(step(st2, '"') == st3);
    lemma_run_concat(kid, p6, st3);
    lemma_run_key(kid, Seq::empty(), st3);
    assert(Seq::<char>::empty() + kid =~= kid);
    let st4 = St { mode: Mode::Key(kid), ..st2 };
    assert(p6 =~= seq!['"'] + (seq![':'] + seq![' ']));
    lemma_run_concat(seq!['"'], seq![':'] + seq![' '], st4);
    lemma_run_one('"', st4);
    let st5 = St { mode: Mode::AfterKey(kid), ..st2 };
    assert(step(st4, '"') == st5);
    lemma_run_concat(seq![':'], seq![' '], st5);
    lemma_run_one(':', st5);
    let st6 = St { mode: Mode::ValId, ..st2 };
    assert(step(st5, ':') == st6);
    lemma_run_one(' ', st6);
    assert(step(st6, ' ') == st6);
}

/// From the last digit of the id to the opening quote of the description.
proof fn lemma_run_mid_desc(st: St, idv: u32)
    requires
        st.mode == Mode::Num(idv),
        st.fields == empty_fields(),
    ensures
        run(mid_desc(), st) == (St {
            mode: Mode::Str(Seq::empty()),
            fields: (FieldsV { id: Some(idv), description: None, completed: None }),
            tasks: st.tasks,
        }),
{
    let p1 = seq![','];
    let p2 = seq!['\n', ' ', ' ', ' ', ' '];
    let p3 = seq!['"'];
    let kd = key_description();
    let p5 = seq!['"', ':', ' ', '"'];
    assert(mid_desc() =~= p1 + (p2 + (p3 + (kd + p5))));
    assert(forall|j: int| 0 <= j < p2.len() ==> is_ws(p2[j]));
    assert(forall|j: int| 0 <= j < kd.len() ==> kd[j] != '"' && kd[j] != '\\');
    let f1 = FieldsV { id: Some(idv), description: None, completed: None };
    lemma_run_concat(p1, p2 + (p3 + (kd + p5)), st);
    lemma_run_one(',', st);
    let st1 = St { mode: Mode::ObjKey, fields: f1, tasks: st.tasks };
    assert(step(st, ',') == st1);
    lemma_run_concat(p2, p3 + (kd + p5), st1);
    lemma_run_ws(p2, st1);
    lemma_run_concat(p3, kd + p5, st1);
    lemma_run_one('"', st1);
    let st2 = St { mode: Mode::Key(Seq::empty()), ..st1 };
    assert(step(st1, '"') == st2);
    lemma_run_concat(kd, p5, st2);
    lemma_run_key(kd, Seq::empty(), st2);
    assert(Seq::<char>::empty() + kd =~= kd);
    let st3 = St { mode: Mode::Key(kd), ..st1 };
    assert(p5 =~= seq!['"'] + (seq![':'] + (seq![' '] + seq!['"'])));
    lemma_run_concat(seq!['"'], seq![':'] + (seq![' '] + seq!['"']), st3);
    lemma_run_one('"', st3);
    let st4 = St { mode: Mode::AfterKey(kd), ..st1 };
    assert(step(st3, '"') == st4);
    lemma_run_concat(seq![':'], seq![' '] + seq!['"'], st4);
    lemma_run_one(':', st4);
    let st5 = St { mode: Mode::ValDesc, ..st1 };
    assert(kd != key_id());
    assert(step(st4, ':') == st5);
    lemma_run_concat(seq![' '], seq!['"'], st5);
    lemma_run_one(' ', st5);
    assert(step(st5, ' ') == st5);
    lemma_run_one('"', st5);
    assert(step(st5, '"') == (St { mode: Mode::Str(Seq::empty()), ..st1 }));
}

/// From the closing quote of the description to the space after
/// `"completed":`.
proof fn lemma_run_mid_comp(st: St, idv: u32, d: Seq<char>)
    requires
        st.mode == Mode::Str(d),
        st.fields == (FieldsV { id: Some(idv), description: None, completed: None }),
    ensures
        run(mid_comp(), st) == (St {
            mode: Mode::ValComp,
            fields: (FieldsV { id: Some(idv), description: Some(d), completed: None }),
            tasks: st.tasks,
        }),
{
    let p1 = seq!['"'];
    let p2 = seq![','];
    let p3 = seq!['\n', ' ', ' ', ' ', ' '];
    let p4 = seq!['"'];
    let kc = key_completed();
    let p6 = seq!['"', ':', ' '];
    assert(mid_comp() =~= p1 + (p2 + (p3 + (p4 + (kc + p6)))));
    assert(forall|j: int| 0 <= j < p3.len() ==> is_ws(p3[j]));
    assert(forall|j: int| 0 <= j < kc.len() ==> kc[j] != '"' && kc[j] != '\\');
    let f2 = FieldsV { id: Some(idv), description: Some(d), completed: None };
    lemma_run_concat(p1, p2 + (p3 + (p4 + (kc + p6))), st);
    lemma_run_one('"', st);
    let st1 = St { mode: Mode::AfterVal, fields: f2, tasks: st.tasks };
    assert(step(st, '"') == st1);
    lemma_run_concat(p2, p3 + (p4 + (kc + p6)), st1);
    lemma_run_one(',', st1);
    let st2 = St { mode: Mode::ObjKey, ..st1 };
    assert(step(st1, ',') == st2);
    lemma_run_concat(p3, p4 + (kc + p6), st2);
    lemma_run_ws(p3, st2);
    lemma_run_concat(p4, kc + p6, st2);
    lemma_run_one('"', st2);
    let st3 = St { mode: Mode::Key(Seq::empty()), ..st1 };
    assert(step(st2, '"') == st3);
    lemma_run_concat(kc, p6, st3);
    lemma_run_key(kc, Seq::empty(), st3);
    assert(Seq::<char>::empty() + kc =~= kc);
    let st4 = St { mode: Mode::Key(kc), ..st1 };
    assert(p6 =~= seq!['"'] + (seq![':'] + seq![' ']));
    lemma_run_concat(seq!['"'], seq![':'] + seq![' '], st4);
    lemma_run_one('"', st4);
    let st5 = St { mode: Mode::AfterKey(kc), ..st1 };
    assert(step(st4, '"') == st5);
    lemma_run_concat(seq![':'], seq![' '], st5);
    lemma_run_one(':', st5);
    let st6 = St { mode: Mode::ValComp, ..st1 };
    assert(kc != key_id());
    assert(kc != key_description());
    assert(step(st5, ':') == st6);
    lemma_run_one(' ', st6);
    assert(step(st6, ' ') == st6);
}

/// The word `true` or `false` sets the completion field.
proof fn lemma_run_lit(b: bool, st: St)
    requires
        st.mode is ValComp,
    ensures
        run(lit_word(b), st) == (St {
            mode: Mode::AfterVal,
            fields: (FieldsV { completed: Some(b), ..st.fields }),
            tasks: st.tasks,
        }),
{
    if b {
        assert(lit_word(true) =~= seq!['t'] + (seq!['r'] + (seq!['u'] + seq!['e'])));
        lemma_run_concat(seq!['t'], seq!['r'] + (seq!['u'] + seq!['e']), st);
        lemma_run_one('t', st);
        let st1 = St { mode: Mode::Lit(true, 1), ..st };
        assert(step(st, 't') == st1);
        lemma_run_concat(seq!['r'], seq!['u'] + seq!['e'], st1);
        lemma_run_one('r', st1);
        let st2 = St { mode: Mode::Lit(true, 2), ..st };
        assert(lit_word(true)[1] == 'r');
        assert(step(st1, 'r') == st2);
        lemma_run_concat(seq!['u'], seq!['e'], st2);
        lemma_run_one('u', st2);
        let st3 = St { mode: Mode::Lit(true, 3), ..st };
        assert(lit_word(true)[2] == 'u');
        assert(step(st2, 'u') == st3);
        lemma_run_one('e', st3);
        assert(lit_word(true)[3] == 'e');
        assert(step(st3, 'e') == (St {
            mode: Mode::AfterVal,
            fields: (FieldsV { completed: Some(true), ..st.fields }),
            tasks: st.tasks,
        }));
    } else {
        assert(lit_word(false) =~= seq!['f'] + (seq!['a'] + (seq!['l'] + (seq!['s']
            + seq!['e']))));
        lemma_run_concat(seq!['f'], seq!['a'] + (seq!['l'] + (seq!['s'] + seq!['e'])), st);
        lemma_run_one('f', st);
        let st1 = St { mode: Mode::Lit(false, 1), ..st };
        assert(step(st, 'f') == st1);
        lemma_run_concat(seq!['a'], seq!['l'] + (seq!['s'] + seq!['e']), st1);
        lemma_run_one('a', st1);
        let st2 = St { mode: Mode::Lit(false, 2), ..st };
        assert(lit_word(false)[1] == 'a');
        assert(step(st1, 'a') == st2);
        lemma_run_concat(seq!['l'], seq!['s'] + seq!['e'], st2);
        lemma_run_one('l', st2);
        let st3 = St { mode: Mode::Lit(false, 3), ..st };
        assert(lit_word(false)[2] == 'l');
        assert(step(st2, 'l') == st3);
        lemma_run_concat(seq!['s'], seq!['e'], st3);
        lemma_run_one('s', st3);
        let st4 = St { mode: Mode::Lit(false, 4), ..st };
        assert(lit_word(false)[3] == 's');
        assert(step(st3, 's') == st4);
        lemma_run_one('e', st4);
        assert(lit_word(false)[4] == 'e');
        assert(step(st4, 'e') == (St {
            mode: Mode::AfterVal,
            fields: (FieldsV { completed: Some(false), ..st.fields }),
            tasks: st.tasks,
        }));
    }
}

/// The closing brace turns the three fields into one more task.
proof fn lemma_run_obj_close(st: St, idv: u32, d: Seq<char>, b: bool)
    requires
        st.mode is AfterVal,
        st.fields == (FieldsV { id: Some(idv), description: Some(d), completed: Some(b) }),
    ensures
        run(obj_close(), st) == (St {
            mode: Mode::AfterObj,
            fields: empty_fields(),
            tasks: st.tasks.push(TaskV { id: idv, description: d, completed: b }),
        }),
{
    let p1 = seq!['\n', ' ', ' '];
    assert(obj_close() =~= p1 + seq!['}']);
    assert(forall|j: int| 0 <= j < p1.len() ==> is_ws(p1[j]));
    lemma_run_concat(p1, seq!['}'], st);
    lemma_run_ws(p1, st);
    lemma_run_one('}', st);
}

/// One whole rendered object adds exactly its task.
proof fn lemma_run_task(t: TaskV, st: St)
    requires
        st.mode is ArrStart || st.mode is NextObj,
    ensures
        run(render_task(t), st) == (St {
            mode: Mode::AfterObj,
            fields: empty_fields(),
            tasks: st.tasks.push(t),
        }),
{
    let a1 = obj_open();
    let a2 = dec_rep(t.id);
    let a3 = mid_desc();
    let a4 = esc(t.description);
    let a5 = mid_comp();
    let a6 = lit_word(t.completed);
    let a7 = obj_close();
    lemma_run_concat(a1 + a2 + a3 + a4 + a5 + a6, a7, st);
    lemma_run_concat(a1 + a2 + a3 + a4 + a5, a6, st);
    lemma_run_concat(a1 + a2 + a3 + a4, a5, st);
    lemma_run_concat(a1 + a2 + a3, a4, st);
    lemma_run_concat(a1 + a2, a3, st);
    lemma_run_concat(a1, a2, st);
    lemma_run_obj_open(st);
    let stA = St { mode: Mode::ValId, fields: empty_fields(), tasks: st.tasks };
    lemma_run_dec(t.id, stA);
    let stB = St { mode: Mode::Num(t.id), ..stA };
    lemma_run_mid_desc(stB, t.id);
    let stC = St {
        mode: Mode::Str(Seq::empty()),
        fields: (FieldsV { id: Some(t.id), description: None, completed: None }),
        tasks: st.tasks,
    };
    lemma_run_esc(t.description, Seq::empty(), stC);
    assert(Seq::<char>::empty() + t.description =~= t.description);
    let stD = St { mode: Mode::Str(t.description), ..stC };
    lemma_run_mid_comp(stD, t.id, t.description);
    let stE = St {
        mode: Mode::ValComp,
        fields: (FieldsV { id: Some(t.id), description: Some(t.description), completed: None }),
        tasks: st.tasks,
    };
    lemma_run_lit(t.completed, stE);
    let stF = St {
        mode: Mode::AfterVal,
        fields: (FieldsV {
            id: Some(t.id),
            description: Some(t.description),
            completed: Some(t.completed),
        }),
        tasks: st.tasks,
    };
    lemma_run_obj_close(stF, t.id, t.description, t.completed);
    assert((TaskV { id: t.id, description: t.description, completed: t.completed }) == t);
}

/// The rendered items of a non-empty store add exactly its tasks, in order.
proof fn lemma_run_items(ts: Seq<TaskV>, st: St)
    requires
        ts.len() >= 1,
        st.mode is ArrStart || st.mode is NextObj,
    ensures
        run(render_items(ts), st) == (St {
            mode: Mode::AfterObj,
            fields: empty_fields(),
            tasks: st.tasks + ts,
        }),
    decreases ts.len(),
{
    if ts.len() == 1 {
        lemma_run_task(ts[0], st);
        assert(st.tasks.push(ts[0]) =~= st.tasks + ts);
    } else {
        lemma_run_concat(render_task(ts[0]) + sep(), render_items(ts.drop_first()), st);
        lemma_run_concat(render_task(ts[0]), sep(), st);
        lemma_run_task(ts[0], st);
        let stA = St {
            mode: Mode::AfterObj,
            fields: empty_fields(),
            tasks: st.tasks.push(ts[0]),
        };
        assert(sep() =~= seq![','] + seq!['\n']);
        lemma_run_concat(seq![','], seq!['\n'], stA);
        lemma_run_one(',', stA);
        let stB = St { mode: Mode::NextObj, ..stA };
        assert(step(stA, ',') == stB);
        lemma_run_one('\n', stB);
        assert(step(stB, '\n') == stB);
        lemma_run_items(ts.drop_first(), stB);
        assert(st.tasks.push(ts[0]) + ts.drop_first() =~= st.tasks + ts);
    }
}

/// Save then load is the identity: the document rendered from any sequence
/// of tasks parses back to exactly that sequence — whatever the ids, texts
/// and flags, and for a store of any size.
pub proof fn lemma_save_load_round_trip(ts: Seq<TaskV>)
    ensures
        parse_doc(render_doc(ts)) == Some(ts),
{
    if ts.len() == 0 {
        assert(render_doc(ts) =~= seq!['['] + seq![']']);
        lemma_run_concat(seq!['['], seq![']'], init_st());
        lemma_run_one('[', init_st());
        let st1 = St { mode: Mode::ArrStart, ..init_st() };
        assert(step(init_st(), '[') == st1);
        lemma_run_one(']', st1);
        assert(step(st1, ']') == (St { mode: Mode::End, ..st1 }));
        assert(run(render_doc(ts), init_st()).tasks =~= ts);
    } else {
        lemma_run_concat(arr_open() + render_items(ts), arr_close(), init_st());
        lemma_run_concat(arr_open(), render_items(ts), init_st());
        assert(arr_open() =~= seq!['['] + seq!['\n']);
        lemma_run_concat(seq!['['], seq!['\n'], init_st());
        lemma_run_one('[', init_st());
        let st1 = St { mode: Mode::ArrStart, ..init_st() };
        assert(step(init_st(), '[') == st1);
        lemma_run_one('\n', st1);
        assert(step(st1, '\n') == st1);
        lemma_run_items(ts, st1);
        let st2 = St {
            mode: Mode::AfterObj,
            fields: empty_fields(),
            tasks: Seq::<TaskV>::empty() + ts,
        };
        assert(arr_close() =~= seq!['\n'] + seq![']']);
        lemma_run_concat(seq!['\n'], seq![']'], st2);
        lemma_run_one('\n', st2);
        assert(step(st2, '\n') == st2);
        lemma_run_one(']', st2);
        assert(step(st2, ']') == (St { mode: Mode::End, ..st2 }));
        assert(Seq::<TaskV>::empty() + ts =~= ts);
    }
}

} // verus!
