//! The laws of the library, each proved from the specifications alone:
//! decoding inverts encoding, out-of-bounds mutations change nothing, the
//! pending-to-finished transition is one-way, and an added task survives a
//! save and a fresh load.

use vstd::prelude::*;
use crate::task::TaskView;
use crate::store::{added_view, apply_adds, spec_add, spec_complete, spec_remove};
use crate::codec::{
    encode_bool, encode_completion, encode_task, encode_tasks, encode_tasks_rest, escape_char,
    escape_str, hex_char, hex_val, is_hex, is_scalar_value, lit_body, lit_completed,
    lit_completion, lit_creation, lit_false, lit_null, lit_open, lit_title, lit_true,
    parse_bool, parse_completed_opt, parse_completion_opt, parse_creation_opt, parse_escape,
    parse_str_chars, parse_string, parse_task, parse_tasks, parse_tasks_more, quote_str,
    spec_decode, spec_encode, starts_with,
};

verus! {

/// A sequence starts with its own prefix, and skipping the prefix leaves
/// the remainder.
proof fn lemma_starts_with_prefix(p: Seq<char>, rest: Seq<char>)
    ensures
        starts_with(p + rest, p),
        (p + rest).skip(p.len() as int) == rest,
{
    assert((p + rest).take(p.len() as int) =~= p);
    assert((p + rest).skip(p.len() as int) =~= rest);
}

/// The hexadecimal digit characters read back as their values.
proof fn lemma_hex_rt(n: int)
    requires
        0 <= n < 16,
    ensures
        is_hex(hex_char(n)),
        hex_val(hex_char(n)) == n,
{
}

/// Reading string contents inverts escaping: the escaped text followed by
/// the closing quote and anything after it parses back to the original
/// characters, leaving exactly that remainder.
proof fn lemma_parse_escaped_rt(s: Seq<char>, rest: Seq<char>)
    ensures
        parse_str_chars(escape_str(s) + seq!['"'] + rest) == Some((s, rest)),
    decreases s.len(),
{
    let u = escape_str(s) + seq!['"'] + rest;
    if s.len() == 0 {
        assert(u =~= seq!['"'] + rest);
        assert(u[0] == '"');
        assert(u.skip(1) =~= rest);
        assert(s =~= Seq::<char>::empty());
    } else {
        let c = s[0];
        let tail = escape_str(s.skip(1)) + seq!['"'] + rest;
        lemma_parse_escaped_rt(s.skip(1), rest);
        assert(u =~= escape_char(c) + tail);
        assert(tail.len() >= 1);
        if c == '"' {
            assert(u =~= seq!['\\', '"'] + tail);
            assert(u.skip(2) =~= tail);
            assert(seq![c] + s.skip(1) =~= s);
        } else if c == '\\' {
            assert(u =~= seq!['\\', '\\'] + tail);
            assert(u.skip(2) =~= tail);
            assert(seq![c] + s.skip(1) =~= s);
        } else if c == '\n' {
            assert(u =~= seq!['\\', 'n'] + tail);
            assert(u.skip(2) =~= tail);
            assert(seq![c] + s.skip(1) =~= s);
        } else if c == '\r' {
            assert(u =~= seq!['\\', 'r'] + tail);
            assert(u.skip(2) =~= tail);
            assert(seq![c] + s.skip(1) =~= s);
        } else if c == '\t' {
            assert(u =~= seq!['\\', 't'] + tail);
            assert(u.skip(2) =~= tail);
            assert(seq![c] + s.skip(1) =~= s);
        } else if (c as u32) < 32 {
            let v = c as u32 as int;
            let hi = hex_char(v / 16);
            let lo = hex_char(v % 16);
            assert(u =~= seq!['\\', 'u', '0', '0', hi, lo] + tail);
            lemma_hex_rt(v / 16);
            lemma_hex_rt(v % 16);
            assert(is_hex(u[2]) && is_hex(u[3]) && is_hex(u[4]) && is_hex(u[5]));
            let w = hex_val(u[2]) * 4096 + hex_val(u[3]) * 256 + hex_val(u[4]) * 16 + hex_val(u[5]);
            assert(hex_val('0') == 0);
            assert(w == v);
            assert(is_scalar_value(w));
            vstd::utf8::char_u32_cast(c, c as u32);
            assert((w as u32) as char == c);
            assert(parse_escape(u) == Some((c, 6int)));
            assert(u.skip(6) =~= tail);
            assert(seq![c] + s.skip(1) =~= s);
        } else {
            assert(u[0] == c);
            assert(u.skip(1) =~= tail);
            assert(seq![c] + s.skip(1) =~= s);
        }
    }
}

/// Reading a string value inverts quoting.
proof fn lemma_parse_string_rt(s: Seq<char>, rest: Seq<char>)
    ensures
        parse_string(quote_str(s) + rest) == Some((s, rest)),
{
    let u = quote_str(s) + rest;
    assert(u[0] == '"');
    assert(u.skip(1) =~= escape_str(s) + seq!['"'] + rest);
    lemma_parse_escaped_rt(s, rest);
}

/// Reading a boolean inverts writing one.
proof fn lemma_parse_bool_rt(b: bool, rest: Seq<char>)
    ensures
        parse_bool(encode_bool(b) + rest) == Some((b, rest)),
{
    reveal_strlit("true");
    reveal_strlit("false");
    let u = encode_bool(b) + rest;
    if b {
        lemma_starts_with_prefix(lit_true(), rest);
    } else {
        lemma_starts_with_prefix(lit_false(), rest);
        assert(!starts_with(u, lit_true())) by {
            if starts_with(u, lit_true()) {
                assert(u.take(lit_true().len() as int)[0] == u[0]);
            }
        }
    }
}

/// Reading the optional `completed` field inverts writing it in full.
#[verifier::rlimit(50)]
proof fn lemma_parse_completed_rt(pending: bool, u5: Seq<char>)
    ensures
        parse_completed_opt(lit_completed() + (encode_bool(pending) + u5)) == Some((pending, u5)),
{
    let u4a = encode_bool(pending) + u5;
    lemma_starts_with_prefix(lit_completed(), u4a);
    lemma_parse_bool_rt(pending, u5);
}

/// Reading the optional `creation_date` field inverts writing it in full.
#[verifier::rlimit(50)]
proof fn lemma_parse_creation_rt(creation: Seq<char>, u7: Seq<char>, def: Seq<char>)
    ensures
        parse_creation_opt(lit_creation() + (quote_str(creation) + u7), def) == Some(
            (creation, u7),
        ),
{
    let u6 = quote_str(creation) + u7;
    lemma_starts_with_prefix(lit_creation(), u6);
    lemma_parse_string_rt(creation, u7);
}

/// Reading the trailing `completion_date` field inverts writing it in full.
#[verifier::rlimit(50)]
proof fn lemma_parse_completion_rt(completion: Option<Seq<char>>, u9: Seq<char>)
    ensures
        parse_completion_opt(lit_completion() + (encode_completion(completion) + u9)) == Some(
            (completion, u9),
        ),
{
    reveal_strlit("null");
    let u8 = encode_completion(completion) + u9;
    lemma_starts_with_prefix(lit_completion(), u8);
    match completion {
        Some(d) => {
            assert(u8 =~= quote_str(d) + u9);
            assert(!starts_with(u8, lit_null())) by {
                if starts_with(u8, lit_null()) {
                    assert(u8.take(lit_null().len() as int)[0] == u8[0]);
                    assert(u8[0] == '"');
                }
            }
            lemma_parse_string_rt(d, u9);
        },
        None => {
            assert(u8 =~= lit_null() + u9);
            lemma_starts_with_prefix(lit_null(), u9);
        },
    }
}

/// Reading one task inverts writing one, whatever default timestamp the
/// reader was given: the written task has every field present.
#[verifier::rlimit(100)]
#[verifier::spinoff_prover]
proof fn lemma_parse_task_rt(t: TaskView, rest: Seq<char>, def: Seq<char>)
    ensures
        parse_task(encode_task(t) + rest, def) == Some((t, rest)),
{
    let u9 = seq!['}'] + rest;
    let u8 = encode_completion(t.completion_date) + u9;
    let u7 = lit_completion() + u8;
    let u6 = quote_str(t.creation_date) + u7;
    let u5 = lit_creation() + u6;
    let u4a = encode_bool(t.pending) + u5;
    let u4 = lit_completed() + u4a;
    let u3 = quote_str(t.body) + u4;
    let u2 = lit_body() + u3;
    let u1 = quote_str(t.title) + u2;
    let u0 = lit_title() + u1;
    assert(encode_task(t) + rest =~= u0);
    lemma_starts_with_prefix(lit_title(), u1);
    lemma_parse_string_rt(t.title, u2);
    lemma_starts_with_prefix(lit_body(), u3);
    lemma_parse_string_rt(t.body, u4);
    lemma_parse_completed_rt(t.pending, u5);
    lemma_parse_creation_rt(t.creation_date, u7, def);
    lemma_parse_completion_rt(t.completion_date, u9);
    assert(u9[0] == '}');
    assert(u9.skip(1) =~= rest);
    let parsed = TaskView {
        title: t.title,
        body: t.body,
        pending: t.pending,
        creation_date: t.creation_date,
        completion_date: t.completion_date,
    };
    assert(parsed == t);
    assert(parse_task(u0, def) == Some((t, rest)));
}

/// Reading the tail of the task array inverts writing it.
#[verifier::rlimit(100)]
#[verifier::spinoff_prover]
proof fn lemma_parse_tasks_more_rt(ts: Seq<TaskView>, rest: Seq<char>, def: Seq<char>)
    ensures
        parse_tasks_more(encode_tasks_rest(ts) + seq![']'] + rest, def) == Some((ts, rest)),
    decreases ts.len(),
{
    let u = encode_tasks_rest(ts) + seq![']'] + rest;
    if ts.len() == 0 {
        assert(u =~= seq![']'] + rest);
        assert(u[0] == ']');
        assert(u.skip(1) =~= rest);
        assert(ts =~= Seq::<TaskView>::empty());
    } else {
        let u2 = encode_tasks_rest(ts.skip(1)) + seq![']'] + rest;
        assert(u =~= seq![','] + (encode_task(ts[0]) + u2));
        assert(u[0] == ',');
        assert(u.skip(1) =~= encode_task(ts[0]) + u2);
        lemma_parse_task_rt(ts[0], u2, def);
        assert(u.len() == 1 + encode_task(ts[0]).len() + u2.len());
        assert(u2.len() < u.len());
        lemma_parse_tasks_more_rt(ts.skip(1), rest, def);
        assert(seq![ts[0]] + ts.skip(1) =~= ts);
    }
}

/// Reading the task array inverts writing it.
#[verifier::rlimit(100)]
#[verifier::spinoff_prover]
proof fn lemma_parse_tasks_rt(ts: Seq<TaskView>, rest: Seq<char>, def: Seq<char>)
    ensures
        parse_tasks(encode_tasks(ts) + seq![']'] + rest, def) == Some((ts, rest)),
{
    reveal_strlit("{\"title\":");
    let u = encode_tasks(ts) + seq![']'] + rest;
    if ts.len() == 0 {
        assert(u =~= seq![']'] + rest);
        assert(u[0] == ']');
        assert(u.skip(1) =~= rest);
        assert(ts =~= Seq::<TaskView>::empty());
    } else {
        let u2 = encode_tasks_rest(ts.skip(1)) + seq![']'] + rest;
        assert(u =~= encode_task(ts[0]) + u2);
        assert(u[0] == lit_title()[0]);
        assert(u[0] != ']');
        lemma_parse_task_rt(ts[0], u2, def);
        assert(u.len() == encode_task(ts[0]).len() + u2.len());
        assert(encode_task(ts[0]).len() >= lit_title().len());
        assert(u2.len() < u.len());
        lemma_parse_tasks_more_rt(ts.skip(1), rest, def);
        assert(seq![ts[0]] + ts.skip(1) =~= ts);
    }
}

/// Round trip: decoding the encoded form of any task collection yields that
/// collection back, whatever default timestamp the decoder is given — the
/// encoder writes every field, so no default is ever consulted.
pub proof fn lemma_decode_encode(ts: Seq<TaskView>, def: Seq<char>)
    ensures
        spec_decode(spec_encode(ts), def) == Some(ts),
{
    let tail = encode_tasks(ts) + seq![']'] + seq!['}'];
    assert(spec_encode(ts) =~= lit_open() + tail);
    lemma_starts_with_prefix(lit_open(), tail);
    lemma_parse_tasks_rt(ts, seq!['}'], def);
    assert(seq!['}'][0] == '}');
}

/// Removal and completion at an out-of-bounds index leave the collection —
/// and hence its encoded image, byte for byte — unchanged.
pub proof fn lemma_out_of_bounds_noop(ts: Seq<TaskView>, i: int, now: Seq<char>)
    requires
        !(0 <= i < ts.len()),
    ensures
        spec_remove(ts, i) == ts,
        spec_complete(ts, i, now) == ts,
        spec_encode(spec_remove(ts, i)) == spec_encode(ts),
        spec_encode(spec_complete(ts, i, now)) == spec_encode(ts),
{
}

/// The pending-to-finished transition is one-way: completing a pending task
/// flips its flag and stamps it once; completing it again changes nothing —
/// in particular the first timestamp is never overwritten.
pub proof fn lemma_complete_one_way(ts: Seq<TaskView>, i: int, first: Seq<char>, second: Seq<char>)
    requires
        0 <= i < ts.len(),
        ts[i].pending,
    ensures
        ({
            let once = spec_complete(ts, i, first);
            &&& once.len() == ts.len()
            &&& once[i].pending == false
            &&& once[i].completion_date == Some(first)
            &&& once[i].title == ts[i].title
            &&& once[i].body == ts[i].body
            &&& once[i].creation_date == ts[i].creation_date
            &&& (forall|k: int| 0 <= k < ts.len() && k != i ==> once[k] == ts[k])
            &&& spec_complete(once, i, second) == once
        }),
{
}

/// Durability of an add: the collection with the new task at its end
/// decodes from its own encoded image, and that last task carries exactly
/// the given title and body.
pub proof fn lemma_add_then_load(
    ts: Seq<TaskView>,
    title: Seq<char>,
    body: Seq<char>,
    creation: Seq<char>,
    def: Seq<char>,
)
    ensures
        ({
            let added = spec_add(ts, title, body, creation);
            &&& spec_decode(spec_encode(added), def) == Some(added)
            &&& added.len() == ts.len() + 1
            &&& added[ts.len() as int].title == title
            &&& added[ts.len() as int].body == body
            &&& added[ts.len() as int].pending
        }),
{
    lemma_decode_encode(spec_add(ts, title, body, creation), def);
}

/// The record invariant — the completion timestamp is present exactly when
/// the task is no longer pending — holds of every task a mutation creates
/// or changes: adding establishes it, removal and completion preserve it.
pub proof fn lemma_mutations_preserve_wf(
    ts: Seq<TaskView>,
    title: Seq<char>,
    body: Seq<char>,
    creation: Seq<char>,
    i: int,
    now: Seq<char>,
)
    requires
        forall|k: int| 0 <= k < ts.len() ==> ts[k].wf(),
    ensures
        forall|k: int|
            0 <= k < spec_add(ts, title, body, creation).len() ==> #[trigger] spec_add(
                ts,
                title,
                body,
                creation,
            )[k].wf(),
        forall|k: int| 0 <= k < spec_remove(ts, i).len() ==> #[trigger] spec_remove(ts, i)[k].wf(),
        forall|k: int|
            0 <= k < spec_complete(ts, i, now).len() ==> #[trigger] spec_complete(ts, i, now)[
                k
            ].wf(),
{
    assert forall|k: int| 0 <= k < spec_add(ts, title, body, creation).len() implies #[trigger] spec_add(
        ts,
        title,
        body,
        creation,
    )[k].wf() by {
        if k < ts.len() {
            assert(spec_add(ts, title, body, creation)[k] == ts[k]);
        }
    }
    assert forall|k: int| 0 <= k < spec_remove(ts, i).len() implies #[trigger] spec_remove(ts, i)[
        k
    ].wf() by {
        if 0 <= i < ts.len() {
            if k < i {
                assert(spec_remove(ts, i)[k] == ts[k]);
            } else {
                assert(spec_remove(ts, i)[k] == ts[k + 1]);
            }
        }
    }
    assert forall|k: int| 0 <= k < spec_complete(ts, i, now).len() implies #[trigger] spec_complete(
        ts,
        i,
        now,
    )[k].wf() by {
        if 0 <= i < ts.len() && ts[i].pending && k != i {
            assert(spec_complete(ts, i, now)[k] == ts[k]);
        }
    }
}

/// No add is lost: a run of add requests, applied one after the other as
/// the coordinator serialises them, grows the collection by exactly one
/// task per request, keeps every task that was already there, and ends with
/// every requested task in place, in request order.
pub proof fn lemma_adds_lose_nothing(ts: Seq<TaskView>, items: Seq<(Seq<char>, Seq<char>, Seq<char>)>)
    ensures
        apply_adds(ts, items).len() == ts.len() + items.len(),
        forall|k: int| 0 <= k < ts.len() ==> apply_adds(ts, items)[k] == ts[k],
        forall|k: int|
            0 <= k < items.len() ==> apply_adds(ts, items)[ts.len() + k] == added_view(items[k]),
    decreases items.len(),
{
    if items.len() == 0 {
    } else {
        let ts2 = spec_add(ts, items[0].0, items[0].1, items[0].2);
        let res = apply_adds(ts, items);
        lemma_adds_lose_nothing(ts2, items.skip(1));
        assert(res == apply_adds(ts2, items.skip(1)));
        assert(ts2.len() == ts.len() + 1);
        assert forall|k: int| 0 <= k < ts.len() implies res[k] == ts[k] by {
            assert(res[k] == ts2[k]);
            assert(ts2[k] == ts[k]);
        }
        assert forall|k: int| 0 <= k < items.len() implies res[ts.len() + k] == added_view(
            items[k],
        ) by {
            if k == 0 {
                assert(res[ts.len() as int] == ts2[ts.len() as int]);
                assert(ts2[ts.len() as int] == added_view(items[0]));
            } else {
                assert(items.skip(1)[k - 1] == items[k]);
                assert(res[ts2.len() + (k - 1)] == added_view(items.skip(1)[k - 1]));
                assert(ts2.len() + (k - 1) == ts.len() + k);
            }
        }
    }
}

} // verus!

